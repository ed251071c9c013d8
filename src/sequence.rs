//! Reaction sequences: the persisted rules that bind one trigger event to an
//! ordered list of device actions, and their JSON file format.

use vstd::prelude::*;
use crate::json::{Json, first_match, str_of, distinct_keys, take_fields, key, lemma_first_match_at};

verus! {

/// The trigger a sequence reacts to.
#[derive(Debug, PartialEq)]
pub struct ReactionSequenceTrigger {
    pub trigger_id: String,
    pub trigger_event_id: String,
}

/// One step of a sequence: an action of a device, with its arguments.
#[derive(Debug, PartialEq)]
pub struct ReactionSequenceItemSequence {
    /// Arguments to be passed to the action
    pub arguments: Vec<Json>,
    /// id of the action to perform
    pub device_action_id: String,
    /// id of the device that performs the step
    pub device_id: String,
    /// id of the step
    pub id: String,
}

/// A rule: when `trigger` fires, run the steps of `sequence` in order.
#[derive(Debug, PartialEq)]
pub struct ReactionSequence {
    pub id: String,
    pub name: String,
    pub trigger: ReactionSequenceTrigger,
    pub sequence: Vec<ReactionSequenceItemSequence>,
}

/// Why sequences could not be loaded.
#[derive(Debug, Clone, PartialEq)]
pub enum LoadError {
    FileError,
    FormatError(String),
}

/// Why sequences could not be saved.
#[derive(Debug, Clone, PartialEq)]
pub enum SaveError {
    FormatError(String),
}

pub struct TriggerModel {
    pub trigger_id: Seq<char>,
    pub trigger_event_id: Seq<char>,
}

pub struct ItemModel {
    pub id: Seq<char>,
    pub device_id: Seq<char>,
    pub device_action_id: Seq<char>,
    pub arguments: Seq<Json>,
}

pub struct SequenceModel {
    pub id: Seq<char>,
    pub name: Seq<char>,
    pub trigger: TriggerModel,
    pub items: Seq<ItemModel>,
}

impl View for ReactionSequenceTrigger {
    type V = TriggerModel;

    open spec fn view(&self) -> TriggerModel {
        TriggerModel { trigger_id: self.trigger_id@, trigger_event_id: self.trigger_event_id@ }
    }
}

impl View for ReactionSequenceItemSequence {
    type V = ItemModel;

    open spec fn view(&self) -> ItemModel {
        ItemModel {
            id: self.id@,
            device_id: self.device_id@,
            device_action_id: self.device_action_id@,
            arguments: self.arguments@,
        }
    }
}

impl View for ReactionSequence {
    type V = SequenceModel;

    open spec fn view(&self) -> SequenceModel {
        SequenceModel {
            id: self.id@,
            name: self.name@,
            trigger: self.trigger@,
            items: self.sequence@.map_values(|i: ReactionSequenceItemSequence| i@),
        }
    }
}

/// The trigger that a persisted `trigger` member describes.
pub open spec fn decode_trigger(j: Option<Json>) -> Option<TriggerModel> {
    match j {
        Some(Json::Object(f)) => {
            let a = str_of(first_match(f@, "triggerId"@));
            let b = str_of(first_match(f@, "triggerEventId"@));
            if a is Some && b is Some {
                Some(TriggerModel { trigger_id: a->Some_0, trigger_event_id: b->Some_0 })
            } else {
                None
            }
        },
        _ => None,
    }
}

/// The arguments that a persisted `arguments` member holds.
pub open spec fn decode_arguments(j: Option<Json>) -> Option<Seq<Json>> {
    match j {
        Some(Json::Array(a)) => Some(a@),
        _ => None,
    }
}

/// The step that one persisted element of `sequence` describes.
pub open spec fn decode_item(j: Json) -> Option<ItemModel> {
    match j {
        Json::Object(f) => {
            let id = str_of(first_match(f@, "id"@));
            let dev = str_of(first_match(f@, "deviceId"@));
            let act = str_of(first_match(f@, "deviceActionId"@));
            let args = decode_arguments(first_match(f@, "arguments"@));
            if id is Some && dev is Some && act is Some && args is Some {
                Some(
                    ItemModel {
                        id: id->Some_0,
                        device_id: dev->Some_0,
                        device_action_id: act->Some_0,
                        arguments: args->Some_0,
                    },
                )
            } else {
                None
            }
        },
        _ => None,
    }
}

/// The steps that a persisted `sequence` member describes.
pub open spec fn decode_items(j: Option<Json>) -> Option<Seq<ItemModel>> {
    match j {
        Some(Json::Array(v)) => {
            if forall|k: int| 0 <= k < v@.len() ==> (#[trigger] decode_item(v@[k])) is Some {
                Some(v@.map_values(|x: Json| decode_item(x)->Some_0))
            } else {
                None
            }
        },
        _ => None,
    }
}

/// The sequence that a persisted document describes, or `None` where a
/// member is missing or of the wrong kind. Members besides the named ones
/// are ignored; of repeated keys the first counts.
pub open spec fn decode_sequence(j: Json) -> Option<SequenceModel> {
    match j {
        Json::Object(f) => {
            let id = str_of(first_match(f@, "id"@));
            let name = str_of(first_match(f@, "name"@));
            let trigger = decode_trigger(first_match(f@, "trigger"@));
            let items = decode_items(first_match(f@, "sequence"@));
            if id is Some && name is Some && trigger is Some && items is Some {
                Some(
                    SequenceModel {
                        id: id->Some_0,
                        name: name->Some_0,
                        trigger: trigger->Some_0,
                        items: items->Some_0,
                    },
                )
            } else {
                None
            }
        },
        _ => None,
    }
}

/// Whether `j` is the string value `s`.
pub open spec fn str_is(j: Json, s: Seq<char>) -> bool {
    match j {
        Json::Str(x) => x@ == s,
        _ => false,
    }
}

/// `j` is the persisted shape of trigger `t`.
pub open spec fn encodes_trigger(j: Json, t: TriggerModel) -> bool {
    match j {
        Json::Object(f) => {
            &&& f@.len() == 2
            &&& f@[0].0@ == "triggerId"@ && str_is(f@[0].1, t.trigger_id)
            &&& f@[1].0@ == "triggerEventId"@ && str_is(f@[1].1, t.trigger_event_id)
        },
        _ => false,
    }
}

/// `j` is the persisted shape of step `m`.
pub open spec fn encodes_item(j: Json, m: ItemModel) -> bool {
    match j {
        Json::Object(f) => {
            &&& f@.len() == 4
            &&& f@[0].0@ == "arguments"@
            &&& f@[0].1 matches Json::Array(a) && a@ == m.arguments
            &&& f@[1].0@ == "deviceActionId"@ && str_is(f@[1].1, m.device_action_id)
            &&& f@[2].0@ == "deviceId"@ && str_is(f@[2].1, m.device_id)
            &&& f@[3].0@ == "id"@ && str_is(f@[3].1, m.id)
        },
        _ => false,
    }
}

/// `j` is the persisted shape of sequence `m`: an object with the members
/// `id`, `name`, `trigger` and `sequence`, in that order.
pub open spec fn encodes(j: Json, m: SequenceModel) -> bool {
    match j {
        Json::Object(f) => {
            &&& f@.len() == 4
            &&& f@[0].0@ == "id"@ && str_is(f@[0].1, m.id)
            &&& f@[1].0@ == "name"@ && str_is(f@[1].1, m.name)
            &&& f@[2].0@ == "trigger"@ && encodes_trigger(f@[2].1, m.trigger)
            &&& f@[3].0@ == "sequence"@
            &&& f@[3].1 matches Json::Array(v) && v@.len() == m.items.len() && forall|k: int|
                0 <= k < v@.len() ==> encodes_item(#[trigger] v@[k], m.items[k])
        },
        _ => false,
    }
}

fn take_str(o: Option<Json>) -> (r: Option<String>)
    ensures
        r is Some <==> str_of(o) is Some,
        r is Some ==> r->Some_0@ == str_of(o)->Some_0,
{
    match o {
        Some(Json::Str(s)) => Some(s),
        _ => None,
    }
}

fn trigger_from_json(j: Option<Json>) -> (r: Option<ReactionSequenceTrigger>)
    ensures
        r is Some <==> decode_trigger(j) is Some,
        r is Some ==> r->Some_0@ == decode_trigger(j)->Some_0,
{
    match j {
        Some(Json::Object(f)) => {
            let mut keys: Vec<String> = Vec::new();
            keys.push(key("triggerId"));
            keys.push(key("triggerEventId"));
            proof {
                reveal_strlit("triggerId");
                reveal_strlit("triggerEventId");
                assert(keys@[0]@.len() != keys@[1]@.len());
            }
            let mut vals = take_fields(f, &keys);
            let b = take_str(vals.pop().unwrap());
            let a = take_str(vals.pop().unwrap());
            match (a, b) {
                (Some(a), Some(b)) => Some(ReactionSequenceTrigger { trigger_id: a, trigger_event_id: b }),
                _ => None,
            }
        },
        _ => None,
    }
}

fn item_from_json(j: Json) -> (r: Option<ReactionSequenceItemSequence>)
    ensures
        r is Some <==> decode_item(j) is Some,
        r is Some ==> r->Some_0@ == decode_item(j)->Some_0,
{
    match j {
        Json::Object(f) => {
            let mut keys: Vec<String> = Vec::new();
            keys.push(key("id"));
            keys.push(key("deviceId"));
            keys.push(key("deviceActionId"));
            keys.push(key("arguments"));
            proof {
                reveal_strlit("id");
                reveal_strlit("deviceId");
                reveal_strlit("deviceActionId");
                reveal_strlit("arguments");
                assert(keys@[0]@.len() == 2 && keys@[1]@.len() == 8);
                assert(keys@[2]@.len() == 14 && keys@[3]@.len() == 9);
                assert(distinct_keys(keys@));
            }
            let mut vals = take_fields(f, &keys);
            let args = vals.pop().unwrap();
            let act = take_str(vals.pop().unwrap());
            let dev = take_str(vals.pop().unwrap());
            let id = take_str(vals.pop().unwrap());
            match (id, dev, act, args) {
                (Some(id), Some(dev), Some(act), Some(Json::Array(a))) => Some(
                    ReactionSequenceItemSequence {
                        arguments: a,
                        device_action_id: act,
                        device_id: dev,
                        id,
                    },
                ),
                _ => None,
            }
        },
        _ => None,
    }
}

fn items_from_json(j: Option<Json>) -> (r: Option<Vec<ReactionSequenceItemSequence>>)
    ensures
        r is Some <==> decode_items(j) is Some,
        r is Some ==> r->Some_0@.map_values(|i: ReactionSequenceItemSequence| i@)
            == decode_items(j)->Some_0,
{
    match j {
        Some(Json::Array(v)) => {
            let ghost all = v@;
            let mut rest = v;
            let mut out: Vec<ReactionSequenceItemSequence> = Vec::new();
            while rest.len() > 0
                invariant
                    decode_items(j) is Some <==> forall|k: int|
                        0 <= k < all.len() ==> (#[trigger] decode_item(all[k])) is Some,
                    decode_items(j) is Some ==> decode_items(j)->Some_0 == all.map_values(
                        |x: Json| decode_item(x)->Some_0,
                    ),
                    out@.len() + rest@.len() == all.len(),
                    rest@ == all.subrange(out@.len() as int, all.len() as int),
                    forall|k: int| 0 <= k < out@.len() ==> decode_item(#[trigger] all[k]) is Some
                        && out@[k]@ == decode_item(all[k])->Some_0,
                decreases rest@.len(),
            {
                let ghost n = out@.len() as int;
                let x = rest.remove(0);
                assert(x == all[n]);
                assert(rest@ =~= all.subrange(n + 1, all.len() as int));
                match item_from_json(x) {
                    Some(item) => out.push(item),
                    None => {
                        assert(decode_item(all[n]) is None);
                        assert(!(forall|k: int| 0 <= k < all.len() ==> (#[trigger] decode_item(all[k])) is Some));
                        return None;
                    },
                }
            }
            assert(out@.map_values(|i: ReactionSequenceItemSequence| i@) =~= all.map_values(|x: Json| decode_item(x)->Some_0));
            Some(out)
        },
        _ => None,
    }
}

/// Reads a sequence out of its persisted document.
pub fn from_json(j: Json) -> (r: Result<ReactionSequence, LoadError>)
    ensures
        r is Ok <==> decode_sequence(j) is Some,
        r matches Ok(s) ==> s@ == decode_sequence(j)->Some_0,
        r matches Err(e) ==> e is FormatError,
{
    let bad = Err(LoadError::FormatError(key("not a reaction sequence document")));
    match j {
        Json::Object(f) => {
            let mut keys: Vec<String> = Vec::new();
            keys.push(key("id"));
            keys.push(key("name"));
            keys.push(key("trigger"));
            keys.push(key("sequence"));
            proof {
                reveal_strlit("id");
                reveal_strlit("name");
                reveal_strlit("trigger");
                reveal_strlit("sequence");
                assert(keys@[0]@.len() == 2 && keys@[1]@.len() == 4);
                assert(keys@[2]@.len() == 7 && keys@[3]@.len() == 8);
                assert(distinct_keys(keys@));
            }
            let mut vals = take_fields(f, &keys);
            let items = items_from_json(vals.pop().unwrap());
            let trigger = trigger_from_json(vals.pop().unwrap());
            let name = take_str(vals.pop().unwrap());
            let id = take_str(vals.pop().unwrap());
            match (id, name, trigger, items) {
                (Some(id), Some(name), Some(trigger), Some(sequence)) => Ok(
                    ReactionSequence { id, name, trigger, sequence },
                ),
                _ => bad,
            }
        },
        _ => bad,
    }
}

fn str_member(k: &str, v: String) -> (r: (String, Json))
    ensures
        r.0@ == k@,
        str_is(r.1, v@),
{
    (key(k), Json::Str(v))
}

fn trigger_to_json(t: ReactionSequenceTrigger) -> (r: Json)
    ensures
        encodes_trigger(r, t@),
{
    let mut f: Vec<(String, Json)> = Vec::new();
    f.push(str_member("triggerId", t.trigger_id));
    f.push(str_member("triggerEventId", t.trigger_event_id));
    Json::Object(f)
}

fn item_to_json(i: ReactionSequenceItemSequence) -> (r: Json)
    ensures
        encodes_item(r, i@),
{
    let mut f: Vec<(String, Json)> = Vec::new();
    f.push((key("arguments"), Json::Array(i.arguments)));
    f.push(str_member("deviceActionId", i.device_action_id));
    f.push(str_member("deviceId", i.device_id));
    f.push(str_member("id", i.id));
    Json::Object(f)
}

/// Writes a sequence as its persisted document.
pub fn to_json(s: ReactionSequence) -> (r: Json)
    ensures
        encodes(r, s@),
{
    let ghost all = s.sequence@;
    let mut rest = s.sequence;
    let mut items: Vec<Json> = Vec::new();
    while rest.len() > 0
        invariant
            items@.len() + rest@.len() == all.len(),
            rest@ == all.subrange(items@.len() as int, all.len() as int),
            forall|k: int| 0 <= k < items@.len() ==> encodes_item(#[trigger] items@[k], all[k]@),
        decreases rest@.len(),
    {
        let ghost n = items@.len() as int;
        let x = rest.remove(0);
        assert(x == all[n]);
        assert(rest@ =~= all.subrange(n + 1, all.len() as int));
        items.push(item_to_json(x));
    }
    let mut f: Vec<(String, Json)> = Vec::new();
    f.push(str_member("id", s.id));
    f.push(str_member("name", s.name));
    f.push((key("trigger"), trigger_to_json(s.trigger)));
    f.push((key("sequence"), Json::Array(items)));
    Json::Object(f)
}

proof fn lemma_item_round_trip(j: Json, m: ItemModel)
    requires
        encodes_item(j, m),
    ensures
        decode_item(j) == Some(m),
{
    reveal_strlit("id");
    reveal_strlit("deviceId");
    reveal_strlit("deviceActionId");
    reveal_strlit("arguments");
    if let Json::Object(f) = j {
        let s = f@;
        assert(s[0].0@.len() == 9 && s[1].0@.len() == 14 && s[2].0@.len() == 8 && s[3].0@.len() == 2);
        lemma_first_match_at(s, "arguments"@, 0);
        lemma_first_match_at(s, "deviceActionId"@, 1);
        lemma_first_match_at(s, "deviceId"@, 2);
        lemma_first_match_at(s, "id"@, 3);
    }
}

/// Writing a sequence as its persisted document and reading that document
/// back gives the same sequence, whatever its steps and their arguments,
/// none included.
pub proof fn lemma_round_trip(j: Json, m: SequenceModel)
    requires
        encodes(j, m),
    ensures
        decode_sequence(j) == Some(m),
{
    reveal_strlit("id");
    reveal_strlit("name");
    reveal_strlit("trigger");
    reveal_strlit("sequence");
    reveal_strlit("triggerId");
    reveal_strlit("triggerEventId");
    if let Json::Object(f) = j {
        let s = f@;
        assert(s[0].0@.len() == 2 && s[1].0@.len() == 4 && s[2].0@.len() == 7 && s[3].0@.len() == 8);
        lemma_first_match_at(s, "id"@, 0);
        lemma_first_match_at(s, "name"@, 1);
        lemma_first_match_at(s, "trigger"@, 2);
        lemma_first_match_at(s, "sequence"@, 3);
        if let Json::Object(t) = s[2].1 {
            assert(t@[0].0@.len() == 9 && t@[1].0@.len() == 14);
            lemma_first_match_at(t@, "triggerId"@, 0);
            lemma_first_match_at(t@, "triggerEventId"@, 1);
        }
        if let Json::Array(v) = f@[3].1 {
            assert forall|k: int| 0 <= k < v@.len() implies #[trigger] decode_item(v@[k]) == Some(
                m.items[k],
            ) by {
                lemma_item_round_trip(v@[k], m.items[k]);
            }
            assert(v@.map_values(|x: Json| decode_item(x)->Some_0) =~= m.items);
        }
    }
}

/// What reading one file of the sequence directory gave.
#[derive(Debug, PartialEq)]
pub enum SequenceFile {
    /// The file could not be read.
    Unreadable,
    /// The file is not JSON; the parser's message.
    Malformed(String),
    /// The file's JSON document.
    Document(Json),
}

/// The sequence a file holds, if it holds one.
pub open spec fn file_sequence(f: SequenceFile) -> Option<SequenceModel> {
    match f {
        SequenceFile::Document(j) => decode_sequence(j),
        _ => None,
    }
}

/// `e` is the error that loading reports for the bad file `f`.
pub open spec fn error_fits(f: SequenceFile, e: LoadError) -> bool {
    match f {
        SequenceFile::Unreadable => e is FileError,
        SequenceFile::Malformed(m) => e matches LoadError::FormatError(x) && x@ == m@,
        SequenceFile::Document(_) => e is FormatError,
    }
}

/// Reads every file of the sequence directory. The first file that cannot
/// be read or does not hold a sequence fails the whole load.
pub fn load_sequences(files: Vec<SequenceFile>) -> (r: Result<Vec<ReactionSequence>, LoadError>)
    ensures
        r is Ok <==> forall|k: int| 0 <= k < files@.len() ==> (#[trigger] file_sequence(files@[k])) is Some,
        r matches Ok(v) ==> v@.len() == files@.len() && forall|k: int|
            0 <= k < v@.len() ==> (#[trigger] v@[k])@ == file_sequence(files@[k])->Some_0,
        r matches Err(e) ==> exists|f: int|
            0 <= f < files@.len() && (forall|k: int| 0 <= k < f ==> (#[trigger] file_sequence(files@[k])) is Some)
                && file_sequence(files@[f]) is None && error_fits(#[trigger] files@[f], e),
{
    let ghost all = files@;
    let mut rest = files;
    let mut out: Vec<ReactionSequence> = Vec::new();
    while rest.len() > 0
        invariant
            all == files@,
            out@.len() + rest@.len() == all.len(),
            rest@ == all.subrange(out@.len() as int, all.len() as int),
            forall|k: int| 0 <= k < out@.len() ==> (#[trigger] file_sequence(all[k])) is Some
                && out@[k]@ == file_sequence(all[k])->Some_0,
        decreases rest@.len(),
    {
        let ghost n = out@.len() as int;
        let x = rest.remove(0);
        assert(x == all[n]);
        assert(rest@ =~= all.subrange(n + 1, all.len() as int));
        match x {
            SequenceFile::Unreadable => {
                assert(error_fits(all[n], LoadError::FileError));
                assert(file_sequence(all[n]) is None);
                return Err(LoadError::FileError);
            },
            SequenceFile::Malformed(m) => {
                let e = LoadError::FormatError(m);
                assert(error_fits(all[n], e));
                assert(file_sequence(all[n]) is None);
                return Err(e);
            },
            SequenceFile::Document(j) => {
                match from_json(j) {
                    Ok(seq) => out.push(seq),
                    Err(e) => {
                        assert(error_fits(all[n], e));
                        assert(file_sequence(all[n]) is None);
                        return Err(e);
                    },
                }
            },
        }
    }
    Ok(out)
}

/// Loading the same file twice gives the same sequence, field for field,
/// or fails both times.
pub proof fn lemma_load_deterministic(a: SequenceFile, b: SequenceFile)
    requires
        a == b,
    ensures
        file_sequence(a) == file_sequence(b),
{
}

} // verus!
