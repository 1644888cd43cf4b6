//! Cluster configuration data.
//!
//! The kubeconfig file names clusters, users and contexts; the host only
//! needs the base URL and the credential material out of it. Discovery
//! and file and YAML reading are I/O and live with the embedder, which
//! hands this module the parsed record and any file contents; this module
//! owns the choice logic — inline data before file, base64 decoding, the
//! GCP token priorities — with exact contracts.

use vstd::prelude::*;

verus! {

/// Failures while assembling a cluster configuration.
#[derive(Clone, Copy, Debug, PartialEq, Eq, Structural)]
pub enum ConfigError {
    /// No kubeconfig was found where the embedder looked.
    ReadFile,
    /// The file did not parse as a kubeconfig.
    ParseYaml,
    /// Inline data was not valid base64.
    Base64Decode,
    /// Neither inline data nor a file path was given.
    MissingData,
    /// A path was given but the embedder handed no file contents over.
    MissingFile,
}

/// [`Kubeconfig`] represents information on how to connect to a remote
/// Kubernetes cluster, as it is normally stored on disk.
#[derive(Debug)]
pub struct Kubeconfig {
    pub kind: Option<String>,
    pub api_version: Option<String>,
    pub preferences: Option<Preferences>,
    pub clusters: Vec<NamedCluster>,
    pub auth_infos: Vec<NamedAuthInfo>,
    pub contexts: Vec<NamedContext>,
    pub current_context: String,
    pub extensions: Option<Vec<NamedExtension>>,
}

/// Preferences stores extensions for cli.
#[derive(Debug)]
pub struct Preferences {
    pub colors: Option<bool>,
    pub extensions: Option<Vec<NamedExtension>>,
}

/// NamedExtension associates name with extension.
#[derive(Debug)]
pub struct NamedExtension {
    pub name: String,
    pub extension: String,
}

/// NamedCluster associates name with cluster.
#[derive(Debug)]
pub struct NamedCluster {
    pub name: String,
    pub cluster: Cluster,
}

/// Cluster stores information to connect Kubernetes cluster.
#[derive(Debug)]
pub struct Cluster {
    pub server: String,
    pub insecure_skip_tls_verify: Option<bool>,
    pub certificate_authority: Option<String>,
    pub certificate_authority_data: Option<String>,
}

/// NamedAuthInfo associates name with authentication.
#[derive(Debug)]
pub struct NamedAuthInfo {
    pub name: String,
    pub auth_info: AuthInfo,
}

/// AuthInfo stores information to tell cluster who you are.
#[derive(Debug)]
pub struct AuthInfo {
    pub username: Option<String>,
    pub password: Option<String>,
    pub token: Option<String>,
    pub token_file: Option<String>,
    pub client_certificate: Option<String>,
    pub client_certificate_data: Option<String>,
    pub client_key: Option<String>,
    pub client_key_data: Option<String>,
    pub impersonate: Option<String>,
    pub impersonate_groups: Option<Vec<String>>,
    pub auth_provider: Option<AuthProviderConfig>,
    pub exec_config: Option<ExecConfig>,
}

/// AuthProviderConfig stores auth for specified cloud provider; its
/// configuration is an association list of keys and values.
#[derive(Debug)]
pub struct AuthProviderConfig {
    pub name: String,
    pub config: Vec<(String, String)>,
}

/// ExecConfig stores credential-plugin configuration.
#[derive(Debug)]
pub struct ExecConfig {
    pub api_version: Option<String>,
    pub args: Option<Vec<String>>,
    pub command: String,
    pub env: Option<Vec<Vec<(String, String)>>>,
}

/// NamedContext associates name with context.
#[derive(Debug)]
pub struct NamedContext {
    pub name: String,
    pub context: Context,
}

/// Context stores tuple of cluster and user information.
#[derive(Debug)]
pub struct Context {
    pub cluster: String,
    pub user: String,
    pub namespace: Option<String>,
    pub extensions: Option<Vec<NamedExtension>>,
}

/// What the `base64` crate decodes a padded standard-alphabet string to;
/// decoding is a function of the characters alone.
pub uninterp spec fn base64_decode_of(s: Seq<char>) -> Option<Seq<u8>>;

/// Relies on `base64`'s standard-alphabet engine: `decode` answers
/// `Ok` with the decoded bytes exactly when the input is valid base64,
/// deterministically in the input.
#[verifier::external_body]
fn b64_decode(input: &String) -> (r: Result<Vec<u8>, ConfigError>)
    ensures
        match r {
            Ok(b) => base64_decode_of(input@) == Some(b@),
            Err(e) => base64_decode_of(input@) is None && e == ConfigError::Base64Decode,
        },
{
    match base64::Engine::decode(&base64::engine::general_purpose::STANDARD, input.as_bytes()) {
        Ok(b) => Ok(b),
        Err(_) => Err(ConfigError::Base64Decode),
    }
}

/// Credential material named by a kubeconfig field pair: the inline
/// base64 data wins; otherwise the embedder has read the named file and
/// hands its contents in as `file_bytes`.
pub fn data_or_file_with_base64(
    data: &Option<String>,
    file: &Option<String>,
    file_bytes: Option<Vec<u8>>,
) -> (r: Result<Vec<u8>, ConfigError>)
    ensures
        match r {
            Ok(b) => {
                ||| (data is Some && base64_decode_of(data->0@) == Some(b@))
                ||| (data is None && file is Some && file_bytes is Some && b@ == file_bytes->0@)
            },
            Err(e) => {
                &&& (e == ConfigError::Base64Decode <==> data is Some && base64_decode_of(
                    data->0@,
                ) is None)
                &&& (e == ConfigError::MissingFile <==> data is None && file is Some
                    && file_bytes is None)
                &&& (e == ConfigError::MissingData <==> data is None && file is None)
                &&& (e == ConfigError::Base64Decode || e == ConfigError::MissingFile || e
                    == ConfigError::MissingData)
            },
        },
{
    match data {
        Some(d) => b64_decode(d),
        None => match file {
            Some(_) => match file_bytes {
                Some(b) => Ok(b),
                None => Err(ConfigError::MissingFile),
            },
            None => Err(ConfigError::MissingData),
        },
    }
}

impl Kubeconfig {
    /// Finish a read: the embedder looked for the file and tried to
    /// parse it. The parsed record passes through; a file that was there
    /// but did not parse is the YAML error, and no file at all is the
    /// read-file error.
    pub fn read(found: Option<Kubeconfig>, file_found: bool) -> (r: Result<
        Kubeconfig,
        ConfigError,
    >)
        ensures
            found is Some <==> r is Ok,
            r matches Ok(c) ==> found == Some(c),
            found is None && file_found ==> (r matches Err(e) && e == ConfigError::ParseYaml),
            found is None && !file_found ==> (r matches Err(e) && e == ConfigError::ReadFile),
    {
        match found {
            Some(c) => Ok(c),
            None => {
                if file_found {
                    Err(ConfigError::ParseYaml)
                } else {
                    Err(ConfigError::ReadFile)
                }
            },
        }
    }
}

impl Cluster {
    /// The cluster's CA bundle: `Ok(None)` when the kubeconfig names
    /// none, else the inline data decoded, else the contents of the
    /// named file.
    pub fn load_certificate_authority(&self, file_bytes: Option<Vec<u8>>) -> (r: Result<
        Option<Vec<u8>>,
        ConfigError,
    >)
        ensures
            self.certificate_authority is None && self.certificate_authority_data is None
                ==> (r matches Ok(o) && o is None),
            match r {
                Ok(o) => match o {
                    Option::Some(b) => {
                        ||| (self.certificate_authority_data is Some && base64_decode_of(
                            self.certificate_authority_data->0@,
                        ) == Some(b@))
                        ||| (self.certificate_authority_data is None
                            && self.certificate_authority is Some && file_bytes is Some && b@
                            == file_bytes->0@)
                    },
                    Option::None => self.certificate_authority is None
                        && self.certificate_authority_data is None,
                },
                Err(e) => {
                    &&& (e == ConfigError::Base64Decode || e == ConfigError::MissingFile)
                    &&& (e == ConfigError::Base64Decode <==> self.certificate_authority_data
                        is Some && base64_decode_of(
                        self.certificate_authority_data->0@,
                    ) is None)
                    &&& (e == ConfigError::MissingFile <==> self.certificate_authority_data
                        is None && self.certificate_authority is Some && file_bytes is None)
                },
            },
    {
        if self.certificate_authority.is_none() && self.certificate_authority_data.is_none() {
            return Ok(None);
        }
        let res = data_or_file_with_base64(
            &self.certificate_authority_data,
            &self.certificate_authority,
            file_bytes,
        )?;
        Ok(Some(res))
    }
}

/// The first value under `key` in an association list.
pub open spec fn assoc_get(m: Seq<(String, String)>, key: Seq<char>) -> Option<Seq<char>>
    decreases m.len(),
{
    if m.len() == 0 {
        Option::None
    } else if m[0].0@ == key {
        Option::Some(m[0].1@)
    } else {
        assoc_get(m.drop_first(), key)
    }
}

/// Look a key up in an association list, first match.
fn assoc_lookup<'a>(m: &'a Vec<(String, String)>, key: &String) -> (r: Option<&'a String>)
    ensures
        match r {
            Some(v) => assoc_get(m@, key@) == Some(v@),
            None => assoc_get(m@, key@) is None,
        },
{
    let mut i: usize = 0;
    proof {
        assert(m@.skip(0) =~= m@);
    }
    while i < m.len()
        invariant
            i <= m@.len(),
            assoc_get(m@, key@) == assoc_get(m@.skip(i as int), key@),
        decreases m@.len() - i,
    {
        proof {
            assert(m@.skip(i as int)[0] == m@[i as int]);
            assert(m@.skip(i as int).drop_first() =~= m@.skip(i + 1 as int));
        }
        if m[i].0.eq(key) {
            return Some(&m[i].1);
        }
        i = i + 1;
    }
    None
}

impl AuthInfo {
    /// Whether the embedder must fetch a fresh GCP token before the
    /// client can be built: only when the provider carries an
    /// access token whose recorded expiry has passed. The embedder reads
    /// the clock and reports that as `expired`.
    pub fn gcp_refresh_needed(&self, expired: bool) -> (r: bool)
        ensures
            r == (self.auth_provider is Some && assoc_get(
                self.auth_provider->0.config@,
                "access-token"@,
            ) is Some && expired),
    {
        match &self.auth_provider {
            Some(provider) => {
                let key = "access-token".to_owned();
                match assoc_lookup(&provider.config, &key) {
                    Some(_) => expired,
                    None => false,
                }
            },
            None => false,
        }
    }

    /// Settle the bearer token from the GCP auth provider: the
    /// configured access token, replaced by the freshly `fetched` one
    /// when the old one had expired, and overridden by an id token when
    /// the provider carries one. Without a provider nothing changes.
    pub fn load_gcp(&mut self, fetched: Option<String>)
        ensures
            ostr(final(self).token) == spec_gcp_token(*old(self), ostr(fetched)),
            final(self).username == old(self).username,
            final(self).password == old(self).password,
            final(self).token_file == old(self).token_file,
            final(self).client_certificate == old(self).client_certificate,
            final(self).client_certificate_data == old(self).client_certificate_data,
            final(self).client_key == old(self).client_key,
            final(self).client_key_data == old(self).client_key_data,
            final(self).impersonate == old(self).impersonate,
            final(self).impersonate_groups == old(self).impersonate_groups,
            final(self).auth_provider == old(self).auth_provider,
            final(self).exec_config == old(self).exec_config,
    {
        let provider = match &self.auth_provider {
            Some(p) => p,
            None => {
                return ;
            },
        };
        let mut token: Option<String> = None;
        let mut set_any = false;
        let access_key = "access-token".to_owned();
        match assoc_lookup(&provider.config, &access_key) {
            Some(t) => {
                token = Some(t.clone());
                set_any = true;
                if let Some(f) = fetched {
                    token = Some(f);
                }
            },
            None => {},
        }
        let id_key = "id-token".to_owned();
        match assoc_lookup(&provider.config, &id_key) {
            Some(t) => {
                token = Some(t.clone());
                set_any = true;
            },
            None => {},
        }
        if set_any {
            self.token = token;
        }
    }

    /// The user's client certificate: inline data decoded, else the
    /// contents of the named file.
    pub fn load_client_certificate(&self, file_bytes: Option<Vec<u8>>) -> (r: Result<
        Vec<u8>,
        ConfigError,
    >)
        ensures
            match r {
                Ok(b) => {
                    ||| (self.client_certificate_data is Some && base64_decode_of(
                        self.client_certificate_data->0@,
                    ) == Some(b@))
                    ||| (self.client_certificate_data is None && self.client_certificate is Some
                        && file_bytes is Some && b@ == file_bytes->0@)
                },
                Err(e) => {
                    &&& (e == ConfigError::Base64Decode || e == ConfigError::MissingFile || e
                        == ConfigError::MissingData)
                    &&& (e == ConfigError::Base64Decode <==> self.client_certificate_data is Some
                        && base64_decode_of(self.client_certificate_data->0@) is None)
                    &&& (e == ConfigError::MissingFile <==> self.client_certificate_data is None
                        && self.client_certificate is Some && file_bytes is None)
                    &&& (e == ConfigError::MissingData <==> self.client_certificate_data is None
                        && self.client_certificate is None)
                },
            },
    {
        data_or_file_with_base64(&self.client_certificate_data, &self.client_certificate, file_bytes)
    }

    /// The user's client key: inline data decoded, else the contents of
    /// the named file.
    pub fn load_client_key(&self, file_bytes: Option<Vec<u8>>) -> (r: Result<Vec<u8>, ConfigError>)
        ensures
            match r {
                Ok(b) => {
                    ||| (self.client_key_data is Some && base64_decode_of(self.client_key_data->0@)
                        == Some(b@))
                    ||| (self.client_key_data is None && self.client_key is Some
                        && file_bytes is Some && b@ == file_bytes->0@)
                },
                Err(e) => {
                    &&& (e == ConfigError::Base64Decode || e == ConfigError::MissingFile || e
                        == ConfigError::MissingData)
                    &&& (e == ConfigError::Base64Decode <==> self.client_key_data is Some
                        && base64_decode_of(self.client_key_data->0@) is None)
                    &&& (e == ConfigError::MissingFile <==> self.client_key_data is None
                        && self.client_key is Some && file_bytes is None)
                    &&& (e == ConfigError::MissingData <==> self.client_key_data is None
                        && self.client_key is None)
                },
            },
    {
        data_or_file_with_base64(&self.client_key_data, &self.client_key, file_bytes)
    }
}

/// The view of an optional string.
pub open spec fn ostr(o: Option<String>) -> Option<Seq<char>> {
    match o {
        Option::Some(s) => Option::Some(s@),
        Option::None => Option::None,
    }
}

/// The token the GCP provider settles on: an id token wins; otherwise
/// the fetched replacement or the configured access token; without
/// either, the token the record already had.
pub open spec fn spec_gcp_token(a: AuthInfo, fetched: Option<Seq<char>>) -> Option<Seq<char>> {
    match a.auth_provider {
        Option::None => ostr(a.token),
        Option::Some(p) => {
            let access = assoc_get(p.config@, "access-token"@);
            let id = assoc_get(p.config@, "id-token"@);
            if id is Some {
                id
            } else if access is Some {
                if fetched is Some {
                    fetched
                } else {
                    access
                }
            } else {
                ostr(a.token)
            }
        },
    }
}

} // verus!
