use vstd::prelude::*;
use crate::errors::UpdateError;
use crate::keys::descriptor_object_key;
use crate::keys::has_artifact_suffix;
use crate::keys::strip_artifact_suffix;
use crate::keys::stripped_suffix;
use crate::persistent::descriptor_json;
use crate::persistent::lookup_channel;
use crate::persistent::rendered_descriptor;
use crate::persistent::ChannelConfig;
use crate::persistent::ChannelsConfig;

verus! {

/// Everything the update protocol decides before the store is touched:
/// which object to upload, and which descriptor text to write back under
/// which key once the upload has succeeded.
pub struct UpdatePlan {
    /// The object key of the artifact to upload: the file name itself.
    pub object_key: String,
    /// The bare artifact name: the file name minus the suffix. Becomes
    /// the channel's new `latest`.
    pub basename: String,
    /// The key of the channel's descriptor document.
    pub descriptor_key: String,
    /// The advanced descriptor: the old `latest` archived, the new one
    /// installed.
    pub new_descriptor: ChannelConfig,
    /// The descriptor serialised as the exact text to write back.
    pub descriptor_text: String,
}

/// Decide an update of `channel_name` to the artifact file `file_name`.
///
/// Fails, before any store mutation is possible, when the file lacks the
/// artifact suffix or the channel does not exist in the freshly loaded
/// configuration. On success the returned plan fixes every value the
/// caller must use: upload the artifact under `object_key` first, and
/// only if that succeeds write `descriptor_text` under `descriptor_key`.
pub fn begin_update(config: &ChannelsConfig, channel_name: &str, file_name: &str) -> (r: Result<
    UpdatePlan,
    UpdateError,
>)
    ensures
        match r {
            Ok(plan) => has_artifact_suffix(file_name@) && (lookup_channel(
                config@,
                channel_name@,
            ) matches Some(c) && plan.object_key@ == file_name@ && plan.object_key@
                == plan.basename@ + ".tar.xz"@ && plan.basename@
                == stripped_suffix(file_name@) && plan.descriptor_key@ == channel_name@ + ".json"@
                && plan.new_descriptor@.latest == stripped_suffix(file_name@)
                && plan.new_descriptor@.previous == c.previous.push(c.latest)
                && plan.descriptor_text@ == rendered_descriptor(plan.new_descriptor@)),
            Err(UpdateError::InvalidFileName { file_name: f }) => !has_artifact_suffix(file_name@)
                && f@ == file_name@,
            Err(UpdateError::NoSuchChannel { channel_name: n }) => has_artifact_suffix(file_name@)
                && lookup_channel(config@, channel_name@) is None && n@ == channel_name@,
            Err(_) => false,
        },
{
    match strip_artifact_suffix(file_name) {
        None => Err(UpdateError::InvalidFileName { file_name: file_name.to_owned() }),
        Some(basename) => {
            match config.channel(channel_name) {
                None => Err(UpdateError::NoSuchChannel { channel_name: channel_name.to_owned() }),
                Some(current) => {
                    proof {
                        crate::keys::lemma_suffix_split(file_name@);
                    }
                    let basename = basename.to_owned();
                    let advanced = current.advance(basename.clone());
                    let descriptor_text = descriptor_json(&advanced);
                    Ok(
                        UpdatePlan {
                            object_key: file_name.to_owned(),
                            basename,
                            descriptor_key: descriptor_object_key(channel_name),
                            new_descriptor: advanced,
                            descriptor_text,
                        },
                    )
                },
            }
        },
    }
}

/// Classify the outcome of carrying an update plan out. The upload must
/// complete before the pointer is advanced, so a failed upload leaves the
/// channel untouched; a failed descriptor write after a completed upload
/// leaves the artifact leaked in the store, a distinct condition that
/// needs operator attention.
pub fn finish_update(plan: &UpdatePlan, channel_name: &str, upload_ok: bool, write_ok: bool) -> (r:
    Result<(), UpdateError>)
    ensures
        match r {
            Ok(_) => upload_ok && write_ok,
            Err(UpdateError::UploadFailed { object_key }) => !upload_ok && object_key@
                == plan.object_key@,
            Err(UpdateError::LeakedArtifact { channel_name: n, object_key }) => upload_ok
                && !write_ok && n@ == channel_name@ && object_key@ == plan.object_key@,
            Err(_) => false,
        },
{
    if !upload_ok {
        Err(UpdateError::UploadFailed { object_key: plan.object_key.clone() })
    } else if !write_ok {
        Err(
            UpdateError::LeakedArtifact {
                channel_name: channel_name.to_owned(),
                object_key: plan.object_key.clone(),
            },
        )
    } else {
        Ok(())
    }
}

} // verus!
