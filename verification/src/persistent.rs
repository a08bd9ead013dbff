use vstd::prelude::*;
use vstd::pervasive::VecAdditionalExecFns;
use crate::json::JsonValue;
use crate::json::JsonValueV;
use crate::json::members_view;
use crate::json::parse_document;
use crate::json::parse_document_exec;
use crate::json::rendered_string;
use crate::json::rendered_ids_from;
use crate::json::push_rendered_string;
use crate::json::push_rendered_ids;
use crate::text::chars_to_string;
use crate::text::push_str_chars;

verus! {

/// The character sequences of a vector of strings, in order.
pub open spec fn strings_view(v: Seq<String>) -> Seq<Seq<char>> {
    Seq::new(v.len(), |i: int| v[i]@)
}

/// Mathematical value of a channel descriptor: the current artifact name
/// and the archive of prior artifact names, oldest first.
pub struct ChannelConfigV {
    pub latest: Seq<char>,
    pub previous: Seq<Seq<char>>,
}

/// The persisted configuration of a single channel: the current artifact
/// and the history of artifacts it pointed to before.
pub struct ChannelConfig {
    /// The latest element in the channel. If this is `foo`, it is served
    /// as `channel/foo.tar.xz`.
    pub latest: String,
    /// Previous tarballs in this channel, in the order they were replaced.
    pub previous: Vec<String>,
}

impl View for ChannelConfig {
    type V = ChannelConfigV;

    open spec fn view(&self) -> ChannelConfigV {
        ChannelConfigV { latest: self.latest@, previous: strings_view(self.previous@) }
    }
}

/// Copy a vector of strings, element for element.
pub fn clone_string_vec(v: &Vec<String>) -> (r: Vec<String>)
    ensures
        strings_view(r@) == strings_view(v@),
{
    let mut r: Vec<String> = Vec::new();
    let mut i: usize = 0;
    while i < v.len()
        invariant
            i <= v.len(),
            r@.len() == i,
            forall|k: int| 0 <= k < i as int ==> r@[k]@ == v@[k]@,
        decreases v.len() - i,
    {
        r.push(v[i].clone());
        i = i + 1;
    }
    proof {
        assert(strings_view(r@) =~= strings_view(v@));
    }
    r
}

impl Clone for ChannelConfig {
    fn clone(&self) -> (r: Self)
        ensures
            r@ == self@,
    {
        ChannelConfig { latest: self.latest.clone(), previous: clone_string_vec(&self.previous) }
    }
}

impl ChannelConfig {
    /// Archive the current artifact and install `new_latest` in its place.
    /// The old `latest` is appended to `previous` before being replaced.
    pub fn advance(self, new_latest: String) -> (r: ChannelConfig)
        ensures
            r@.latest == new_latest@,
            r@.previous == self@.previous.push(self@.latest),
    {
        let ChannelConfig { latest, mut previous } = self;
        previous.push(latest);
        proof {
            assert(ChannelConfig { latest: new_latest, previous }@.previous
                =~= self@.previous.push(self@.latest));
        }
        ChannelConfig { latest: new_latest, previous }
    }
}

/// The mathematical contents of a `ChannelsConfig`: named descriptors in
/// the order they were loaded.
pub open spec fn config_entries_view(v: Seq<(String, ChannelConfig)>) -> Seq<
    (Seq<char>, ChannelConfigV),
> {
    Seq::new(v.len(), |i: int| (v[i].0@, v[i].1@))
}

/// The descriptor stored under `name`, if any: the first entry whose name
/// matches.
pub open spec fn lookup_channel(
    entries: Seq<(Seq<char>, ChannelConfigV)>,
    name: Seq<char>,
) -> Option<ChannelConfigV>
    decreases entries.len(),
{
    if entries.len() == 0 {
        None
    } else if entries[0].0 == name {
        Some(entries[0].1)
    } else {
        lookup_channel(entries.drop_first(), name)
    }
}

/// The list of channels known to this service and their descriptors.
/// An immutable snapshot: it is built whole by a load and never mutated
/// while shared.
pub struct ChannelsConfig {
    entries: Vec<(String, ChannelConfig)>,
}

impl View for ChannelsConfig {
    type V = Seq<(Seq<char>, ChannelConfigV)>;

    closed spec fn view(&self) -> Seq<(Seq<char>, ChannelConfigV)> {
        config_entries_view(self.entries@)
    }
}

impl ChannelsConfig {
    /// Every channel name occurs at most once.
    pub open spec fn wf(&self) -> bool {
        forall|i: int, j: int|
            0 <= i < j < self@.len() ==> self@[i].0 != self@[j].0
    }

    /// The names of all known channels, in snapshot order.
    pub fn channels(&self) -> (r: Vec<String>)
        ensures
            strings_view(r@) == Seq::new(self@.len(), |i: int| self@[i].0),
    {
        let mut r: Vec<String> = Vec::new();
        let mut i: usize = 0;
        while i < self.entries.len()
            invariant
                i <= self.entries.len(),
                self.entries.len() == self@.len(),
                r@.len() == i,
                forall|k: int| 0 <= k < i as int ==> r@[k]@ == self@[k].0,
            decreases self.entries.len() - i,
        {
            r.push(self.entries[i].0.clone());
            i = i + 1;
        }
        proof {
            assert(strings_view(r@) =~= Seq::new(self@.len(), |k: int| self@[k].0));
        }
        r
    }

    /// The descriptor of `channel_name`, returned by value so that no
    /// reference can outlive a concurrent snapshot replacement.
    pub fn channel(&self, channel_name: &str) -> (r: Option<ChannelConfig>)
        ensures
            match r {
                Some(c) => lookup_channel(self@, channel_name@) == Some(c@),
                None => lookup_channel(self@, channel_name@) is None,
            },
    {
        let mut i: usize = 0;
        proof {
            assert(self@.skip(0) =~= self@);
        }
        while i < self.entries.len()
            invariant
                i <= self.entries.len(),
                lookup_channel(self@, channel_name@) == lookup_channel(
                    self@.skip(i as int),
                    channel_name@,
                ),
            decreases self.entries.len() - i,
        {
            proof {
                assert(self@.skip(i as int).drop_first() =~= self@.skip(i as int + 1));
                assert(self@.skip(i as int)[0] == self@[i as int]);
            }
            if substring_eq(&self.entries[i].0, channel_name) {
                return Some(self.entries[i].1.clone());
            }
            i = i + 1;
        }
        None
    }
}

/// Compare a stored name with a requested one.
fn substring_eq(a: &String, b: &str) -> (r: bool)
    ensures
        r == (a@ == b@),
{
    let b_owned = b.to_owned();
    a.eq(&b_owned)
}

/// The descriptor described by the members of a channel document, folded
/// in text order. `latest` is required and must be a string; `previous`
/// is optional, defaults to the empty history, and must be an array; a
/// repeated field is malformed; unrecognised members are ignored.
pub open spec fn extract_descriptor(
    ms: Seq<(Seq<char>, JsonValueV)>,
    latest: Option<Seq<char>>,
    previous: Option<Seq<Seq<char>>>,
) -> Option<ChannelConfigV>
    decreases ms.len(),
{
    if ms.len() == 0 {
        match latest {
            Some(l) => Some(
                ChannelConfigV {
                    latest: l,
                    previous: match previous {
                        Some(p) => p,
                        None => Seq::empty(),
                    },
                },
            ),
            None => None,
        }
    } else if ms[0].0 == "latest"@ {
        if latest is Some {
            None
        } else {
            match ms[0].1 {
                JsonValueV::Str(t) => extract_descriptor(ms.drop_first(), Some(t), previous),
                JsonValueV::Arr(_) => None,
            }
        }
    } else if ms[0].0 == "previous"@ {
        if previous is Some {
            None
        } else {
            match ms[0].1 {
                JsonValueV::Arr(a) => extract_descriptor(ms.drop_first(), latest, Some(a)),
                JsonValueV::Str(_) => None,
            }
        }
    } else {
        extract_descriptor(ms.drop_first(), latest, previous)
    }
}

/// The channel descriptor a document text denotes, or `None` when the text
/// is malformed.
pub open spec fn descriptor_of_text(t: Seq<char>) -> Option<ChannelConfigV> {
    match parse_document(t) {
        Some(ms) => extract_descriptor(ms, None, None),
        None => None,
    }
}

/// The channel names listed by the members of an index document. The
/// `channels` field is required and must be an array; a repeated field is
/// malformed; unrecognised members are ignored.
pub open spec fn extract_index(
    ms: Seq<(Seq<char>, JsonValueV)>,
    channels: Option<Seq<Seq<char>>>,
) -> Option<Seq<Seq<char>>>
    decreases ms.len(),
{
    if ms.len() == 0 {
        channels
    } else if ms[0].0 == "channels"@ {
        if channels is Some {
            None
        } else {
            match ms[0].1 {
                JsonValueV::Arr(a) => extract_index(ms.drop_first(), Some(a)),
                JsonValueV::Str(_) => None,
            }
        }
    } else {
        extract_index(ms.drop_first(), channels)
    }
}

/// The channel names the index text lists, or `None` when it is malformed.
pub open spec fn channels_index_of_text(t: Seq<char>) -> Option<Seq<Seq<char>>> {
    match parse_document(t) {
        Some(ms) => extract_index(ms, None),
        None => None,
    }
}

/// View of an optional string accumulator.
pub open spec fn opt_text_view(o: Option<String>) -> Option<Seq<char>> {
    match o {
        Some(s) => Some(s@),
        None => None,
    }
}

/// View of an optional string-vector accumulator.
pub open spec fn opt_strings_view(o: Option<Vec<String>>) -> Option<Seq<Seq<char>>> {
    match o {
        Some(v) => Some(strings_view(v@)),
        None => None,
    }
}

/// Parse one persisted channel document. Returns `None` when the text is
/// not a well-formed channel descriptor.
pub fn parse_channel_descriptor(text: &str) -> (r: Option<ChannelConfig>)
    ensures
        match r {
            Some(c) => descriptor_of_text(text@) == Some(c@),
            None => descriptor_of_text(text@) is None,
        },
{
    match parse_document_exec(text) {
        None => None,
        Some(ms) => {
            let ghost msv = members_view(ms@);
            let mut latest: Option<String> = None;
            let mut previous: Option<Vec<String>> = None;
            let mut idx: usize = 0;
            proof {
                assert(msv.skip(0) =~= msv);
            }
            while idx < ms.len()
                invariant
                    idx <= ms.len(),
                    msv == members_view(ms@),
                    msv.len() == ms.len(),
                    parse_document(text@) == Some(msv),
                    extract_descriptor(msv, None, None) == extract_descriptor(
                        msv.skip(idx as int),
                        opt_text_view(latest),
                        opt_strings_view(previous),
                    ),
                decreases ms.len() - idx,
            {
                proof {
                    assert(msv.skip(idx as int).drop_first() =~= msv.skip(idx as int + 1));
                    assert(msv.skip(idx as int)[0] == msv[idx as int]);
                }
                if substring_eq(&ms[idx].0, "latest") {
                    if latest.is_some() {
                        return None;
                    }
                    match &ms[idx].1 {
                        JsonValue::Str(t) => {
                            latest = Some(t.clone());
                        },
                        JsonValue::Arr(_) => {
                            return None;
                        },
                    }
                } else if substring_eq(&ms[idx].0, "previous") {
                    if previous.is_some() {
                        return None;
                    }
                    match &ms[idx].1 {
                        JsonValue::Arr(a) => {
                            previous = Some(clone_string_vec(a));
                        },
                        JsonValue::Str(_) => {
                            return None;
                        },
                    }
                }
                idx = idx + 1;
            }
            proof {
                assert(msv.skip(ms.len() as int) =~= Seq::<(Seq<char>, JsonValueV)>::empty());
            }
            match latest {
                None => None,
                Some(l) => {
                    match previous {
                        Some(p) => Some(ChannelConfig { latest: l, previous: p }),
                        None => {
                            let c = ChannelConfig { latest: l, previous: Vec::new() };
                            proof {
                                assert(c@.previous =~= Seq::<Seq<char>>::empty());
                            }
                            Some(c)
                        },
                    }
                },
            }
        },
    }
}

/// Parse the persisted channels index. Returns the listed channel names,
/// or `None` when the text is not a well-formed index.
pub fn parse_channels_index(text: &str) -> (r: Option<Vec<String>>)
    ensures
        match r {
            Some(names) => channels_index_of_text(text@) == Some(strings_view(names@)),
            None => channels_index_of_text(text@) is None,
        },
{
    match parse_document_exec(text) {
        None => None,
        Some(ms) => {
            let ghost msv = members_view(ms@);
            let mut channels: Option<Vec<String>> = None;
            let mut idx: usize = 0;
            proof {
                assert(msv.skip(0) =~= msv);
            }
            while idx < ms.len()
                invariant
                    idx <= ms.len(),
                    msv == members_view(ms@),
                    msv.len() == ms.len(),
                    parse_document(text@) == Some(msv),
                    extract_index(msv, None) == extract_index(
                        msv.skip(idx as int),
                        opt_strings_view(channels),
                    ),
                decreases ms.len() - idx,
            {
                proof {
                    assert(msv.skip(idx as int).drop_first() =~= msv.skip(idx as int + 1));
                    assert(msv.skip(idx as int)[0] == msv[idx as int]);
                }
                if substring_eq(&ms[idx].0, "channels") {
                    if channels.is_some() {
                        return None;
                    }
                    match &ms[idx].1 {
                        JsonValue::Arr(a) => {
                            channels = Some(clone_string_vec(a));
                        },
                        JsonValue::Str(_) => {
                            return None;
                        },
                    }
                }
                idx = idx + 1;
            }
            proof {
                assert(msv.skip(ms.len() as int) =~= Seq::<(Seq<char>, JsonValueV)>::empty());
            }
            channels
        },
    }
}

/// Replace the entry named `name`, or append one when the name is new.
pub open spec fn set_entry(
    v: Seq<(Seq<char>, ChannelConfigV)>,
    name: Seq<char>,
    c: ChannelConfigV,
) -> Seq<(Seq<char>, ChannelConfigV)>
    decreases v.len(),
{
    if v.len() == 0 {
        seq![(name, c)]
    } else if v[0].0 == name {
        seq![(name, c)] + v.drop_first()
    } else {
        seq![v[0]] + set_entry(v.drop_first(), name, c)
    }
}

/// What `set_entry` stores under each name: the new descriptor under
/// `name`, everything else unchanged.
pub proof fn lemma_lookup_set_entry(
    v: Seq<(Seq<char>, ChannelConfigV)>,
    name: Seq<char>,
    c: ChannelConfigV,
    m: Seq<char>,
)
    ensures
        lookup_channel(set_entry(v, name, c), m) == if m == name {
            Some(c)
        } else {
            lookup_channel(v, m)
        },
    decreases v.len(),
{
    if v.len() == 0 {
        assert(set_entry(v, name, c) == seq![(name, c)]);
        assert(seq![(name, c)][0] == (name, c));
        assert(seq![(name, c)].drop_first() =~= Seq::<(Seq<char>, ChannelConfigV)>::empty());
        assert(lookup_channel(Seq::<(Seq<char>, ChannelConfigV)>::empty(), m) is None);
        assert(lookup_channel(set_entry(v, name, c), m) == if m == name {
            Some(c)
        } else {
            lookup_channel(v, m)
        });
    } else if v[0].0 == name {
        let w = seq![(name, c)] + v.drop_first();
        assert(set_entry(v, name, c) == w);
        assert(w[0] == (name, c));
        assert(w.drop_first() =~= v.drop_first());
        assert(lookup_channel(set_entry(v, name, c), m) == if m == name {
            Some(c)
        } else {
            lookup_channel(v, m)
        });
    } else {
        lemma_lookup_set_entry(v.drop_first(), name, c, m);
        let w = seq![v[0]] + set_entry(v.drop_first(), name, c);
        assert(set_entry(v, name, c) == w);
        assert(w[0] == v[0]);
        assert(w.drop_first() =~= set_entry(v.drop_first(), name, c));
        assert(lookup_channel(set_entry(v, name, c), m) == if m == name {
            Some(c)
        } else {
            lookup_channel(v, m)
        });
    }
}

/// `set_entry` at the first matching position is an update in place.
proof fn lemma_set_entry_at(
    v: Seq<(Seq<char>, ChannelConfigV)>,
    name: Seq<char>,
    c: ChannelConfigV,
    idx: int,
)
    requires
        0 <= idx < v.len(),
        v[idx].0 == name,
        forall|k: int| 0 <= k < idx ==> v[k].0 != name,
    ensures
        set_entry(v, name, c) == v.update(idx, (name, c)),
    decreases idx,
{
    if idx == 0 {
        assert(set_entry(v, name, c) =~= v.update(0, (name, c)));
    } else {
        lemma_set_entry_at(v.drop_first(), name, c, idx - 1);
        assert(set_entry(v, name, c) == seq![v[0]] + set_entry(v.drop_first(), name, c));
        assert(seq![v[0]] + v.drop_first().update(idx - 1, (name, c)) =~= v.update(
            idx,
            (name, c),
        ));
    }
}

/// `set_entry` of a fresh name appends.
proof fn lemma_set_entry_missing(
    v: Seq<(Seq<char>, ChannelConfigV)>,
    name: Seq<char>,
    c: ChannelConfigV,
)
    requires
        forall|k: int| 0 <= k < v.len() ==> v[k].0 != name,
    ensures
        set_entry(v, name, c) == v.push((name, c)),
    decreases v.len(),
{
    if v.len() == 0 {
        assert(set_entry(v, name, c) =~= v.push((name, c)));
    } else {
        lemma_set_entry_missing(v.drop_first(), name, c);
        assert(seq![v[0]] + v.drop_first().push((name, c)) =~= v.push((name, c)));
    }
}

impl ChannelsConfig {
    /// Store `c` under `name`, replacing any entry of that name.
    fn insert_channel(&mut self, name: String, c: ChannelConfig)
        ensures
            final(self)@ == set_entry(old(self)@, name@, c@),
            old(self).wf() ==> final(self).wf(),
    {
        let ghost v0 = self@;
        let ghost name_v = name@;
        let ghost c_v = c@;
        let mut i: usize = 0;
        while i < self.entries.len()
            invariant
                i <= self.entries.len(),
                v0 == old(self)@,
                self@ == v0,
                self@.len() == self.entries.len(),
                forall|k: int| 0 <= k < i as int ==> v0[k].0 != name_v,
                name_v == name@,
                c_v == c@,
            decreases self.entries.len() - i,
        {
            if substring_eq(&self.entries[i].0, name.as_str()) {
                self.entries.set(i, (name, c));
                proof {
                    lemma_set_entry_at(v0, name_v, c_v, i as int);
                    assert(self@ =~= v0.update(i as int, (name_v, c_v)));
                    if old(self).wf() {
                        assert forall|p: int, q: int|
                            0 <= p < q < self@.len() implies self@[p].0 != self@[q].0 by {
                            assert(self@[p].0 == v0[p].0);
                            assert(self@[q].0 == v0[q].0);
                        }
                    }
                }
                return ;
            }
            i = i + 1;
        }
        self.entries.push((name, c));
        proof {
            lemma_set_entry_missing(v0, name_v, c_v);
            assert(self@ =~= v0.push((name_v, c_v)));
            if old(self).wf() {
                assert forall|p: int, q: int|
                    0 <= p < q < self@.len() implies self@[p].0 != self@[q].0 by {
                    assert(self@[p].0 == v0[p].0);
                    if q < v0.len() {
                        assert(self@[q].0 == v0[q].0);
                    }
                }
            }
        }
    }
}

/// The descriptor a fetched document stands for: nothing when the document
/// could not be read, else whatever its text denotes.
pub open spec fn doc_entry(doc: Option<Seq<char>>) -> Option<ChannelConfigV> {
    match doc {
        Some(t) => descriptor_of_text(t),
        None => None,
    }
}

/// The configuration built from the index's names and the fetched
/// documents, in order: names whose document is missing or malformed are
/// skipped, the rest are stored; a later duplicate name replaces an
/// earlier one.
pub open spec fn spec_config_from_documents(
    docs: Seq<(Seq<char>, Option<Seq<char>>)>,
) -> Seq<(Seq<char>, ChannelConfigV)>
    decreases docs.len(),
{
    if docs.len() == 0 {
        Seq::empty()
    } else {
        let prev = spec_config_from_documents(docs.drop_last());
        match doc_entry(docs.last().1) {
            Some(c) => set_entry(prev, docs.last().0, c),
            None => prev,
        }
    }
}

/// View of the fetched documents: each channel name paired with its
/// document text, when one could be read.
pub open spec fn docs_view(d: Seq<(String, Option<String>)>) -> Seq<(Seq<char>, Option<Seq<char>>)> {
    Seq::new(d.len(), |i: int| (d[i].0@, opt_text_view(d[i].1)))
}

/// Build a configuration snapshot from the fetched channel documents.
/// One malformed or missing document never fails the whole load: that
/// channel is skipped and the rest are kept.
pub fn config_from_documents(docs: &Vec<(String, Option<String>)>) -> (r: ChannelsConfig)
    ensures
        r@ == spec_config_from_documents(docs_view(docs@)),
        r.wf(),
{
    let ghost dv = docs_view(docs@);
    let mut cfg = ChannelsConfig { entries: Vec::new() };
    proof {
        assert(cfg@ =~= Seq::<(Seq<char>, ChannelConfigV)>::empty());
        assert(dv.take(0) =~= Seq::<(Seq<char>, Option<Seq<char>>)>::empty());
    }
    let mut idx: usize = 0;
    while idx < docs.len()
        invariant
            idx <= docs.len(),
            dv == docs_view(docs@),
            dv.len() == docs.len(),
            cfg@ == spec_config_from_documents(dv.take(idx as int)),
            cfg.wf(),
        decreases docs.len() - idx,
    {
        proof {
            assert(dv.take(idx as int + 1).drop_last() =~= dv.take(idx as int));
            assert(dv.take(idx as int + 1).last() == dv[idx as int]);
        }
        match &docs[idx].1 {
            None => {},
            Some(text) => {
                match parse_channel_descriptor(text.as_str()) {
                    None => {},
                    Some(c) => {
                        cfg.insert_channel(docs[idx].0.clone(), c);
                    },
                }
            },
        }
        idx = idx + 1;
    }
    proof {
        assert(dv.take(docs.len() as int) =~= dv);
    }
    cfg
}

/// A channel whose document never loads is absent from every configuration
/// built: its name resolves to nothing, and the load as a whole still
/// succeeds.
pub proof fn lemma_unloadable_channel_absent(
    docs: Seq<(Seq<char>, Option<Seq<char>>)>,
    name: Seq<char>,
)
    requires
        forall|i: int| 0 <= i < docs.len() && docs[i].0 == name ==> doc_entry(#[trigger] docs[i].1) is None,
    ensures
        lookup_channel(spec_config_from_documents(docs), name) is None,
    decreases docs.len(),
{
    if docs.len() == 0 {
    } else {
        assert forall|i: int|
            0 <= i < docs.drop_last().len() && docs.drop_last()[i].0 == name implies doc_entry(
            #[trigger] docs.drop_last()[i].1,
        ) is None by {
            assert(docs.drop_last()[i] == docs[i]);
        }
        lemma_unloadable_channel_absent(docs.drop_last(), name);
        match doc_entry(docs.last().1) {
            Some(c) => {
                assert(docs.last() == docs[docs.len() - 1]);
                assert(docs.last().0 != name);
                lemma_lookup_set_entry(
                    spec_config_from_documents(docs.drop_last()),
                    docs.last().0,
                    c,
                    name,
                );
            },
            None => {},
        }
    }
}

/// The exact text under which a descriptor is persisted: one object with
/// the `latest` string first and the `previous` array second.
pub open spec fn rendered_descriptor(d: ChannelConfigV) -> Seq<char> {
    "{\"latest\":"@ + rendered_string(d.latest) + ",\"previous\":["@ + rendered_ids_from(
        d.previous,
        0,
    ) + "]}"@
}

/// Render a descriptor as the persisted document text.
pub fn descriptor_json(d: &ChannelConfig) -> (r: String)
    ensures
        r@ == rendered_descriptor(d@),
{
    let mut out: Vec<char> = Vec::new();
    push_str_chars(&mut out, "{\"latest\":");
    push_rendered_string(&mut out, d.latest.as_str());
    push_str_chars(&mut out, ",\"previous\":[");
    push_rendered_ids(&mut out, &d.previous);
    push_str_chars(&mut out, "]}");
    proof {
        assert(out@ =~= rendered_descriptor(d@));
    }
    chars_to_string(&out)
}

/// A channel whose document loads is present in the built configuration,
/// with exactly the descriptor its (last) document denotes.
pub proof fn lemma_loaded_channel_present(
    docs: Seq<(Seq<char>, Option<Seq<char>>)>,
    name: Seq<char>,
    i: int,
)
    requires
        0 <= i < docs.len(),
        docs[i].0 == name,
        doc_entry(docs[i].1) is Some,
        forall|j: int| i < j < docs.len() ==> docs[j].0 != name,
    ensures
        lookup_channel(spec_config_from_documents(docs), name) == doc_entry(docs[i].1),
    decreases docs.len(),
{
    let prev = spec_config_from_documents(docs.drop_last());
    if i == docs.len() - 1 {
        assert(docs.last() == docs[i]);
        match doc_entry(docs[i].1) {
            Some(c) => {
                lemma_lookup_set_entry(prev, name, c, name);
            },
            None => {},
        }
    } else {
        assert(docs.drop_last()[i] == docs[i]);
        lemma_loaded_channel_present(docs.drop_last(), name, i);
        assert(docs.last() == docs[docs.len() - 1]);
        assert(docs.last().0 != name);
        match doc_entry(docs.last().1) {
            Some(c) => {
                lemma_lookup_set_entry(prev, docs.last().0, c, name);
            },
            None => {},
        }
    }
}

/// Loading the same store state twice yields configurations that compare
/// equal entry for entry: the built snapshot is a function of the fetched
/// documents alone.
pub proof fn lemma_load_deterministic(
    a: &ChannelsConfig,
    b: &ChannelsConfig,
    docs: Seq<(Seq<char>, Option<Seq<char>>)>,
)
    requires
        a@ == spec_config_from_documents(docs),
        b@ == spec_config_from_documents(docs),
    ensures
        a@ == b@,
{
}

} // verus!
