//! What holds of the library as a whole, proved from the models that the
//! contracts of its functions speak of.

use crate::auth::AuthView;
use crate::auth::CertificateAuthorityView;
use crate::auth::SharedSecretView;
use crate::config::ConfigView;
use crate::config::SecretFilesView;
use crate::document::Lookup;
use crate::document::ValueView;
use crate::error::ConfigErrorView;
use crate::error::Field;
use crate::network::lemma_networks_well_formed;
use crate::network::NetworkView;
use crate::outside::ed25519_public_key;
use crate::router::RouterView;
use crate::secret::SecretView;
use vstd::prelude::*;

verus! {

/// A secret that was resolved once resolves to the same bytes ever after,
/// whatever its file holds by then or whether it is still there, and asks for
/// no file again. `materialize` is the state that a successful resolution
/// leaves.
pub proof fn law_secret_resolved_once(
    secret: SecretView,
    content: Option<Seq<u8>>,
    later: Option<Seq<u8>>,
    field: Field,
)
    requires
        secret.resolve(content, field) is Ok,
    ensures
        secret.materialize(content, field) == Ok::<SecretView, ConfigErrorView>(
            secret.with_cache(Some(secret.resolve(content, field)->Ok_0)),
        ),
        secret.materialize(content, field)->Ok_0.resolve(later, field) == secret.resolve(
            content,
            field,
        ),
        secret.materialize(content, field)->Ok_0.file_to_read() is None,
        secret.materialize(content, field)->Ok_0.materialize(later, field) == secret.materialize(
            content,
            field,
        ),
{
}

/// Once the identity was derived, the public key that is kept is that of the
/// seed, deriving it again gives the same and needs no file, and so does a
/// load.
pub proof fn law_identity_kept(
    config: ConfigView,
    content: Option<Seq<u8>>,
    later: Option<Seq<u8>>,
)
    requires
        config.seed(content) is Ok,
    ensures
        config.with_identity(config.seed(content)->Ok_0).public_key == ed25519_public_key(
            config.seed(content)->Ok_0,
        ),
        config.with_identity(config.seed(content)->Ok_0).seed(later) == config.seed(content),
        config.with_identity(config.seed(content)->Ok_0).key.file_to_read() is None,
        config.with_identity(config.seed(content)->Ok_0).with_identity(config.seed(content)->Ok_0)
            == config.with_identity(config.seed(content)->Ok_0),
{
}

/// The public key of a loaded configuration is a function of the seed alone:
/// two configurations whose keys resolve to the same seed have the same
/// public key.
pub proof fn law_identity_deterministic(
    one: ConfigView,
    one_files: SecretFilesView,
    other: ConfigView,
    other_files: SecretFilesView,
)
    requires
        one.load(one_files) is Ok,
        other.load(other_files) is Ok,
        one.seed(one_files.key) == other.seed(other_files.key),
    ensures
        one.load(one_files)->Ok_0.public_key == other.load(other_files)->Ok_0.public_key,
        one.load(one_files)->Ok_0.public_key == ed25519_public_key(one.seed(one_files.key)->Ok_0),
{
}

/// Loading a configuration that is loaded changes nothing and needs no
/// file.
pub proof fn law_load_idempotent(config: ConfigView, files: SecretFilesView, later: SecretFilesView)
    requires
        config.load(files) is Ok,
    ensures
        config.load(files)->Ok_0.load(later) == config.load(files),
        config.load(files)->Ok_0.key.file_to_read() is None,
        config.load(files)->Ok_0.auth.signature_file() is None,
        config.load(files)->Ok_0.auth.ca_file() is None,
{
    let loaded = config.load(files)->Ok_0;
    let again = loaded.load(later)->Ok_0;
    assert(loaded.load(later) is Ok);
    assert(again.auth == loaded.auth);
}

/// What reading a document gives is well formed, and is as a document gives
/// it: not loaded.
pub proof fn law_read_is_fresh(doc: ValueView)
    requires
        ConfigView::from_document(doc) is Ok,
    ensures
        ConfigView::from_document(doc)->Ok_0.well_formed(),
        ConfigView::from_document(doc)->Ok_0.fresh() == ConfigView::from_document(doc)->Ok_0,
{
    let config = ConfigView::from_document(doc)->Ok_0;
    match doc.field("network"@) {
        Some(ValueView::List(items)) => {
            lemma_networks_well_formed(items);
        },
        _ => {},
    }
    assert(config.key.fresh() == config.key);
    assert(config.auth.fresh() == config.auth);
}

/// Reading a document, writing what was read, and reading that again gives
/// the same configuration, defaults included.
pub proof fn law_round_trip(doc: ValueView)
    requires
        ConfigView::from_document(doc) is Ok,
    ensures
        ConfigView::from_document(ConfigView::from_document(doc)->Ok_0.to_document())
            == ConfigView::from_document(doc),
{
    law_read_is_fresh(doc);
    ConfigView::from_document(doc)->Ok_0.lemma_round_trip();
}

/// The fields of an authentication table select the method. With `secret`
/// alone the shared secret is read; with `signature` and `ca` alone the
/// certificate authority is read; with neither or both the table is
/// rejected as ambiguous.
pub proof fn law_auth_discrimination(doc: ValueView)
    ensures
        AuthView::matches_shared_secret(doc) && !AuthView::matches_certificate_authority(doc)
            ==> match doc.text("secret"@) {
            Lookup::Found(secret) => AuthView::from_document(doc) == Ok::<
                AuthView,
                ConfigErrorView,
            >(AuthView::SharedSecret(SharedSecretView { cache: None, secret })),
            _ => AuthView::from_document(doc) == Err::<AuthView, ConfigErrorView>(
                ConfigErrorView::MalformedDocument(Field::AuthSecret),
            ),
        },
        AuthView::matches_certificate_authority(doc) && !AuthView::matches_shared_secret(doc)
            ==> match (
            SecretView::from_document(doc.field("signature"@)->Some_0, Field::AuthSignature),
            SecretView::from_document(doc.field("ca"@)->Some_0, Field::AuthCa),
        ) {
            (Ok(signature), Ok(ca)) => AuthView::from_document(doc) == Ok::<
                AuthView,
                ConfigErrorView,
            >(AuthView::CertificateAuthority(CertificateAuthorityView { signature, ca })),
            (Err(error), _) => AuthView::from_document(doc) == Err::<AuthView, ConfigErrorView>(
                error,
            ),
            (Ok(_), Err(error)) => AuthView::from_document(doc) == Err::<
                AuthView,
                ConfigErrorView,
            >(error),
        },
        AuthView::matches_shared_secret(doc) == AuthView::matches_certificate_authority(doc)
            ==> AuthView::from_document(doc) == Err::<AuthView, ConfigErrorView>(
            ConfigErrorView::AmbiguousAuthConfig,
        ),
        AuthView::from_document(doc) matches Ok(AuthView::SharedSecret(_)) ==> doc.has("secret"@),
        AuthView::from_document(doc) matches Ok(AuthView::CertificateAuthority(_)) ==> doc.has(
            "signature"@,
        ) && doc.has("ca"@),
{
}

/// A network of a kind that is not known is rejected with the name of that
/// kind.
pub proof fn law_unknown_network_rejected(doc: ValueView, kind: Seq<char>)
    requires
        doc.text("type"@) == Lookup::Found(kind),
        kind != "dns"@,
        kind != "peers"@,
    ensures
        NetworkView::from_document(doc) == Err::<NetworkView, ConfigErrorView>(
            ConfigErrorView::UnknownVariant(kind),
        ),
{
}

/// A router of a name that is not known is rejected with that name.
pub proof fn law_unknown_router_rejected(doc: ValueView, name: Seq<char>)
    requires
        doc.text("name"@) == Lookup::Found(name),
        name != "dumb"@,
        name != "python"@,
    ensures
        RouterView::from_document(doc) == Err::<RouterView, ConfigErrorView>(
            ConfigErrorView::UnknownVariant(name),
        ),
{
}

} // verus!
