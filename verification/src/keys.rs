use vstd::prelude::*;
use vstd::string::StrSliceExecFns;
use vstd::string::StringExecFns;

verus! {

/// True when the character sequence ends in the artifact suffix `.tar.xz`.
pub open spec fn has_artifact_suffix(s: Seq<char>) -> bool {
    s.len() >= 7 && s.subrange(s.len() - 7, s.len() as int) == ".tar.xz"@
}

/// The channel (or artifact) name obtained by stripping the artifact suffix.
pub open spec fn stripped_suffix(s: Seq<char>) -> Seq<char> {
    s.take(s.len() - 7)
}

/// A path with the artifact suffix is its stem followed by the suffix.
pub proof fn lemma_suffix_split(s: Seq<char>)
    requires
        has_artifact_suffix(s),
    ensures
        s == stripped_suffix(s) + ".tar.xz"@,
{
    reveal_strlit(".tar.xz");
    assert(s =~= stripped_suffix(s) + ".tar.xz"@);
}

/// Decide whether a path carries the artifact suffix `.tar.xz`.
pub fn ends_with_artifact_suffix(s: &str) -> (r: bool)
    ensures
        r == has_artifact_suffix(s@),
{
    let n = s.unicode_len();
    if n < 7 {
        false
    } else {
        let r = s.get_char(n - 7) == '.' && s.get_char(n - 6) == 't' && s.get_char(n - 5) == 'a'
            && s.get_char(n - 4) == 'r' && s.get_char(n - 3) == '.' && s.get_char(n - 2) == 'x'
            && s.get_char(n - 1) == 'z';
        proof {
            reveal_strlit(".tar.xz");
            let sub = s@.subrange(s@.len() - 7, s@.len() as int);
            if r {
                assert(sub =~= ".tar.xz"@);
            } else if sub == ".tar.xz"@ {
                assert(s@[s@.len() - 7] == sub[0]);
                assert(s@[s@.len() - 6] == sub[1]);
                assert(s@[s@.len() - 5] == sub[2]);
                assert(s@[s@.len() - 4] == sub[3]);
                assert(s@[s@.len() - 3] == sub[4]);
                assert(s@[s@.len() - 2] == sub[5]);
                assert(s@[s@.len() - 1] == sub[6]);
            }
        }
        r
    }
}

/// Strip the artifact suffix, returning the bare name, or `None` when the
/// suffix is missing.
pub fn strip_artifact_suffix<'a>(s: &'a str) -> (r: Option<&'a str>)
    ensures
        match r {
            Some(t) => has_artifact_suffix(s@) && t@ == stripped_suffix(s@),
            None => !has_artifact_suffix(s@),
        },
{
    if ends_with_artifact_suffix(s) {
        let n = s.unicode_len();
        let t = s.substring_char(0, n - 7);
        proof {
            assert(t@ =~= stripped_suffix(s@));
        }
        Some(t)
    } else {
        None
    }
}

/// The object key under which an artifact with the given bare name is stored.
pub fn artifact_object_key(basename: &str) -> (r: String)
    ensures
        r@ == basename@ + ".tar.xz"@,
{
    let mut s = basename.to_owned();
    s.append(".tar.xz");
    s
}

/// The object key of the persisted descriptor for the given channel.
pub fn descriptor_object_key(channel_name: &str) -> (r: String)
    ensures
        r@ == channel_name@ + ".json"@,
{
    let mut s = channel_name.to_owned();
    s.append(".json");
    s
}

/// The object key of the persisted channels index.
pub fn channels_index_key() -> (r: String)
    ensures
        r@ == "channels.json"@,
{
    "channels.json".to_owned()
}

} // verus!
