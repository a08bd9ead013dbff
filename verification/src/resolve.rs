use vstd::prelude::*;
use vstd::string::StringExecFns;
use crate::errors::RequestError;
use crate::keys::artifact_object_key;
use crate::keys::has_artifact_suffix;
use crate::keys::strip_artifact_suffix;
use crate::keys::stripped_suffix;
use crate::persistent::lookup_channel;
use crate::persistent::ChannelConfigV;
use crate::persistent::ChannelsConfig;

verus! {

/// The protocol-correct answer for a channel request: the store object to
/// presign and redirect to, and the `Link` header naming the permanent
/// location of the same artifact.
pub struct ChannelRedirect {
    pub object_key: String,
    pub link_header: String,
}

/// The `Link` header value for the lockable-tarball protocol: the
/// permanent, immutable location of the channel's current artifact.
pub open spec fn link_header_view(base_url: Seq<char>, latest: Seq<char>) -> Seq<char> {
    "<"@ + base_url + "/permanent/"@ + latest + ".tar.xz>; rel=\"immutable\""@
}

/// The object key a channel request resolves to under a given snapshot,
/// when it resolves at all: the snapshot's `latest` for that channel,
/// with the artifact suffix appended.
pub open spec fn spec_resolve_channel(
    cfg: Seq<(Seq<char>, ChannelConfigV)>,
    path: Seq<char>,
) -> Option<Seq<char>> {
    if !has_artifact_suffix(path) {
        None
    } else {
        match lookup_channel(cfg, stripped_suffix(path)) {
            Some(c) => Some(c.latest + ".tar.xz"@),
            None => None,
        }
    }
}

/// Resolve a channel request against one configuration snapshot.
///
/// The requested path must end in the artifact suffix; stripping it gives
/// the channel name. A missing suffix and an unknown channel each fail
/// with the error naming the offender; on success the redirect's object
/// key is the channel's `latest` with the suffix appended, and the `Link`
/// header names the permanent location.
pub fn resolve_channel(config: &ChannelsConfig, base_url: &str, path: &str) -> (r: Result<
    ChannelRedirect,
    RequestError,
>)
    ensures
        match r {
            Ok(red) => has_artifact_suffix(path@) && (lookup_channel(
                config@,
                stripped_suffix(path@),
            ) matches Some(c) && red.object_key@ == c.latest + ".tar.xz"@ && red.link_header@
                == link_header_view(base_url@, c.latest) && spec_resolve_channel(config@, path@)
                == Some(red.object_key@)),
            Err(RequestError::InvalidFile { file_name }) => !has_artifact_suffix(path@)
                && file_name@ == path@,
            Err(RequestError::NoSuchChannel { channel_name }) => has_artifact_suffix(path@)
                && lookup_channel(config@, stripped_suffix(path@)) is None && channel_name@
                == stripped_suffix(path@),
            Err(_) => false,
        },
{
    match strip_artifact_suffix(path) {
        None => Err(RequestError::InvalidFile { file_name: path.to_owned() }),
        Some(name) => match config.channel(name) {
            None => Err(RequestError::NoSuchChannel { channel_name: name.to_owned() }),
            Some(c) => {
                let object_key = artifact_object_key(c.latest.as_str());
                let mut link = "<".to_owned();
                link.append(base_url);
                link.append("/permanent/");
                link.append(c.latest.as_str());
                link.append(".tar.xz>; rel=\"immutable\"");
                Ok(ChannelRedirect { object_key, link_header: link })
            },
        },
    }
}

/// Resolve a direct artifact request: the path must end in the artifact
/// suffix and is then the object key itself; no channel lookup happens.
pub fn resolve_permanent(path: &str) -> (r: Result<String, RequestError>)
    ensures
        match r {
            Ok(k) => has_artifact_suffix(path@) && k@ == path@,
            Err(RequestError::InvalidFile { file_name }) => !has_artifact_suffix(path@)
                && file_name@ == path@,
            Err(_) => false,
        },
{
    if crate::keys::ends_with_artifact_suffix(path) {
        Ok(path.to_owned())
    } else {
        Err(RequestError::InvalidFile { file_name: path.to_owned() })
    }
}

/// A resolution is computed against one snapshot whole. When a request
/// races a refresh, the resolver reads the published slot once: whichever
/// of the two snapshots it observed, the redirect's object key is that
/// snapshot's own `latest` for the channel, with the suffix appended —
/// never a mixture of the two.
pub proof fn lemma_resolution_single_snapshot(
    old_cfg: Seq<(Seq<char>, ChannelConfigV)>,
    new_cfg: Seq<(Seq<char>, ChannelConfigV)>,
    path: Seq<char>,
    key: Seq<char>,
)
    requires
        spec_resolve_channel(old_cfg, path) == Some(key) || spec_resolve_channel(new_cfg, path)
            == Some(key),
    ensures
        (spec_resolve_channel(old_cfg, path) == Some(key) && (lookup_channel(
            old_cfg,
            stripped_suffix(path),
        ) matches Some(c) && key == c.latest + ".tar.xz"@)) || (spec_resolve_channel(new_cfg, path)
            == Some(key) && (lookup_channel(new_cfg, stripped_suffix(path)) matches Some(c) && key
            == c.latest + ".tar.xz"@)),
{
}

} // verus!
