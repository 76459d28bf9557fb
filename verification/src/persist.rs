//! Conversation persistence: a named collection of saved conversations,
//! keyed by name, last write winning. The collection is serialized as a
//! JSON array of records; reading and writing the file itself is left to
//! the shell around the library.

use vstd::prelude::*;

use crate::client::Session;
use crate::decoder::opt_str;
use crate::enums::Model;
use crate::error::Error;
use crate::json::Json;
use crate::json::j_field;
use crate::json::j_lookup;
use crate::json::j_as_str;
use crate::json::json_doc_of;
use crate::json::parse_json;
use crate::text::dec_bytes;
use crate::text::json_escape;
use crate::text::json_escape_into;
use crate::text::append_str_bytes;
use crate::text::parse_u32;
use crate::text::spec_parse_u32;
use crate::text::str_eq;
use crate::text::u32_dec_bytes;

use vstd::utf8::encode_utf8;

verus! {

/// One saved conversation record.
#[derive(Debug, Clone, PartialEq, Eq)]
pub struct SavedConversation {
    pub conversation_name: String,
    pub reqid: u32,
    pub conversation_id: String,
    pub response_id: String,
    pub choice_id: String,
    pub snlm0e: String,
    pub model_name: String,
    pub timestamp: String,
}

/// The record with `name` replacing the first record of the same name, or
/// appended when no record carries that name.
pub open spec fn spec_upsert(
    list: Seq<SavedConversation>,
    c: SavedConversation,
) -> Seq<SavedConversation>
    decreases list.len(),
{
    if list.len() == 0 {
        seq![c]
    } else if list[0].conversation_name@ == c.conversation_name@ {
        seq![c] + list.skip(1)
    } else {
        seq![list[0]] + spec_upsert(list.skip(1), c)
    }
}

/// The first record named `name`, if any.
pub open spec fn spec_find(list: Seq<SavedConversation>, name: Seq<char>) -> Option<
    SavedConversation,
>
    decreases list.len(),
{
    if list.len() == 0 {
        None
    } else if list[0].conversation_name@ == name {
        Some(list[0])
    } else {
        spec_find(list.skip(1), name)
    }
}

proof fn lemma_upsert_found(list: Seq<SavedConversation>, c: SavedConversation, i: int)
    requires
        0 <= i < list.len(),
        list[i].conversation_name@ == c.conversation_name@,
        forall|j: int| 0 <= j < i ==> list[j].conversation_name@ != c.conversation_name@,
    ensures
        spec_upsert(list, c) == list.update(i, c),
    decreases i,
{
    if i == 0 {
        assert(seq![c] + list.skip(1) =~= list.update(0, c));
    } else {
        lemma_upsert_found(list.skip(1), c, i - 1);
        assert(seq![list[0]] + list.skip(1).update(i - 1, c) =~= list.update(i, c));
    }
}

proof fn lemma_upsert_missing(list: Seq<SavedConversation>, c: SavedConversation)
    requires
        forall|j: int| 0 <= j < list.len() ==> list[j].conversation_name@
            != c.conversation_name@,
    ensures
        spec_upsert(list, c) == list.push(c),
    decreases list.len(),
{
    if list.len() == 0 {
        assert(seq![c] =~= list.push(c));
    } else {
        lemma_upsert_missing(list.skip(1), c);
        assert(seq![list[0]] + list.skip(1).push(c) =~= list.push(c));
    }
}

/// Replace the record named as `c`, or append `c` when no record carries
/// its name: an upsert, last write winning per name.
pub fn upsert_conversation(convs: &mut Vec<SavedConversation>, c: SavedConversation)
    ensures
        final(convs)@ == spec_upsert(old(convs)@, c),
{
    let ghost gc = c;
    let mut i: usize = 0;
    while i < convs.len()
        invariant
            i <= convs@.len(),
            *convs == *old(convs),
            c == gc,
            forall|j: int| 0 <= j < i ==> convs@[j].conversation_name@
                != gc.conversation_name@,
        decreases convs@.len() - i,
    {
        if str_eq(convs[i].conversation_name.as_str(), c.conversation_name.as_str()) {
            proof {
                lemma_upsert_found(convs@, gc, i as int);
            }
            *vstd::std_specs::vec::vec_index_mut(convs, i) = c;
            return ;
        }
        i += 1;
    }
    proof {
        lemma_upsert_missing(convs@, gc);
    }
    convs.push(c);
}

/// The first record named `name`, if any.
pub fn find_conversation<'a>(convs: &'a Vec<SavedConversation>, name: &str) -> (r: Option<
    &'a SavedConversation,
>)
    ensures
        match r {
            Some(c) => spec_find(convs@, name@) == Some(*c),
            None => spec_find(convs@, name@) is None,
        },
{
    let mut i: usize = 0;
    proof {
        assert(convs@.skip(0) =~= convs@);
    }
    while i < convs.len()
        invariant
            i <= convs@.len(),
            spec_find(convs@, name@) == spec_find(convs@.skip(i as int), name@),
        decreases convs@.len() - i,
    {
        proof {
            assert(convs@.skip(i as int)[0] == convs@[i as int]);
            assert(convs@.skip(i as int).skip(1) =~= convs@.skip(i as int + 1));
        }
        if str_eq(convs[i].conversation_name.as_str(), name) {
            return Some(&convs[i]);
        }
        i += 1;
    }
    None
}

/// The bytes of one record, serialized as a JSON object.
#[verifier::opaque]
pub open spec fn saved_json_bytes(c: SavedConversation) -> Seq<u8> {
    encode_utf8("{\"conversation_name\":\""@) + json_escape(encode_utf8(c.conversation_name@))
        + encode_utf8("\",\"_reqid\":"@) + dec_bytes(c.reqid as int) + encode_utf8(
        ",\"conversation_id\":\""@,
    ) + json_escape(encode_utf8(c.conversation_id@)) + encode_utf8("\",\"response_id\":\""@)
        + json_escape(encode_utf8(c.response_id@)) + encode_utf8("\",\"choice_id\":\""@)
        + json_escape(encode_utf8(c.choice_id@)) + encode_utf8("\",\"SNlM0e\":\""@) + json_escape(
        encode_utf8(c.snlm0e@),
    ) + encode_utf8("\",\"model_name\":\""@) + json_escape(encode_utf8(c.model_name@))
        + encode_utf8("\",\"timestamp\":\""@) + json_escape(encode_utf8(c.timestamp@))
        + encode_utf8("\"}"@)
}

/// The bytes of every record after the first, each preceded by a comma.
pub open spec fn saved_items_rest(l: Seq<SavedConversation>) -> Seq<u8>
    decreases l.len(),
{
    if l.len() == 0 {
        Seq::empty()
    } else {
        encode_utf8(","@) + saved_json_bytes(l[0]) + saved_items_rest(l.skip(1))
    }
}

/// The bytes of a whole collection, serialized as a JSON array of records.
pub open spec fn saved_list_bytes(l: Seq<SavedConversation>) -> Seq<u8> {
    if l.len() == 0 {
        encode_utf8("[]"@)
    } else {
        encode_utf8("["@) + saved_json_bytes(l[0]) + saved_items_rest(l.skip(1)) + encode_utf8(
            "]"@,
        )
    }
}

fn append_saved(out: &mut Vec<u8>, c: &SavedConversation)
    ensures
        final(out)@ == old(out)@ + saved_json_bytes(*c),
{
    append_str_bytes(out, "{\"conversation_name\":\"");
    json_escape_into(out, c.conversation_name.as_str().as_bytes());
    append_str_bytes(out, "\",\"_reqid\":");
    let digits = u32_dec_bytes(c.reqid);
    out.extend_from_slice(digits.as_slice());
    append_str_bytes(out, ",\"conversation_id\":\"");
    json_escape_into(out, c.conversation_id.as_str().as_bytes());
    append_str_bytes(out, "\",\"response_id\":\"");
    json_escape_into(out, c.response_id.as_str().as_bytes());
    append_str_bytes(out, "\",\"choice_id\":\"");
    json_escape_into(out, c.choice_id.as_str().as_bytes());
    append_str_bytes(out, "\",\"SNlM0e\":\"");
    json_escape_into(out, c.snlm0e.as_str().as_bytes());
    append_str_bytes(out, "\",\"model_name\":\"");
    json_escape_into(out, c.model_name.as_str().as_bytes());
    append_str_bytes(out, "\",\"timestamp\":\"");
    json_escape_into(out, c.timestamp.as_str().as_bytes());
    append_str_bytes(out, "\"}");
    proof {
        reveal(saved_json_bytes);
        assert(out@ =~= old(out)@ + saved_json_bytes(*c));
    }
}

/// Serialize a collection of saved conversations as a JSON array of
/// records.
pub fn saved_to_json(convs: &Vec<SavedConversation>) -> (r: Vec<u8>)
    ensures
        r@ == saved_list_bytes(convs@),
{
    let mut out: Vec<u8> = Vec::new();
    if convs.len() == 0 {
        append_str_bytes(&mut out, "[]");
        proof {
            assert(out@ =~= saved_list_bytes(convs@));
        }
        return out;
    }
    append_str_bytes(&mut out, "[");
    append_saved(&mut out, &convs[0]);
    let mut i: usize = 1;
    proof {
        assert(out@ + saved_items_rest(convs@.skip(1)) + encode_utf8("]"@) =~= saved_list_bytes(
            convs@,
        ));
    }
    while i < convs.len()
        invariant
            1 <= i <= convs@.len(),
            out@ + saved_items_rest(convs@.skip(i as int)) + encode_utf8("]"@)
                == saved_list_bytes(convs@),
        decreases convs@.len() - i,
    {
        proof {
            assert(convs@.skip(i as int)[0] == convs@[i as int]);
            assert(convs@.skip(i as int).skip(1) =~= convs@.skip(i as int + 1));
        }
        let ghost prev = out@;
        append_str_bytes(&mut out, ",");
        append_saved(&mut out, &convs[i]);
        proof {
            assert(out@ + saved_items_rest(convs@.skip(i as int + 1)) + encode_utf8("]"@) =~= prev
                + saved_items_rest(convs@.skip(i as int)) + encode_utf8("]"@));
        }
        i += 1;
    }
    proof {
        assert(saved_items_rest(convs@.skip(i as int)) =~= Seq::<u8>::empty());
    }
    append_str_bytes(&mut out, "]");
    proof {
        assert(out@ =~= saved_list_bytes(convs@));
    }
    out
}

/// The view of one parsed record, when the JSON value is an object with
/// every field present and well-typed.
pub open spec fn entry_fields(v: Json) -> Option<
    (Seq<char>, u32, (Seq<char>, Seq<char>, Seq<char>), Seq<char>, Seq<char>, Seq<char>),
> {
    match (
        opt_str(j_field(v, "conversation_name"@)),
        opt_str(j_field(v, "conversation_id"@)),
        opt_str(j_field(v, "response_id"@)),
        opt_str(j_field(v, "choice_id"@)),
        opt_str(j_field(v, "SNlM0e"@)),
        opt_str(j_field(v, "model_name"@)),
        opt_str(j_field(v, "timestamp"@)),
    ) {
        (Some(name), Some(cid), Some(rid), Some(chid), Some(tok), Some(model), Some(ts)) => {
            match j_field(v, "_reqid"@) {
                Some(Json::Num(raw)) => match spec_parse_u32(encode_utf8(raw@)) {
                    Some(n) => Some((name, n, (cid, rid, chid), tok, model, ts)),
                    None => None,
                },
                _ => None,
            }
        },
        _ => None,
    }
}

/// Whether a parsed record carries the same contents as `c`.
pub open spec fn entry_matches(v: Json, c: SavedConversation) -> bool {
    match entry_fields(v) {
        Some(f) => f.0 == c.conversation_name@ && f.1 == c.reqid && f.2.0 == c.conversation_id@
            && f.2.1 == c.response_id@ && f.2.2 == c.choice_id@ && f.3 == c.snlm0e@ && f.4
            == c.model_name@ && f.5 == c.timestamp@,
        None => false,
    }
}

/// Whether every entry of the array is a well-formed record.
pub open spec fn entries_all_ok(es: Seq<Json>) -> bool {
    forall|i: int| 0 <= i < es.len() ==> (#[trigger] entry_fields(es[i])) is Some
}

/// Whether every entry parses and matches the corresponding record.
pub open spec fn entries_match(es: Seq<Json>, cs: Seq<SavedConversation>) -> bool {
    es.len() == cs.len() && forall|i: int| 0 <= i < es.len() ==> entry_matches(es[i], cs[i])
}

fn parse_saved_entry(v: &Json) -> (r: Option<SavedConversation>)
    ensures
        match r {
            Some(c) => entry_matches(*v, c),
            None => entry_fields(*v) is None,
        },
{
    let conversation_name = match j_lookup(v, "conversation_name") {
        Some(x) => match j_as_str(x) {
            Some(s) => s.clone(),
            None => {
                return None;
            },
        },
        None => {
            return None;
        },
    };
    let conversation_id = match j_lookup(v, "conversation_id") {
        Some(x) => match j_as_str(x) {
            Some(s) => s.clone(),
            None => {
                return None;
            },
        },
        None => {
            return None;
        },
    };
    let response_id = match j_lookup(v, "response_id") {
        Some(x) => match j_as_str(x) {
            Some(s) => s.clone(),
            None => {
                return None;
            },
        },
        None => {
            return None;
        },
    };
    let choice_id = match j_lookup(v, "choice_id") {
        Some(x) => match j_as_str(x) {
            Some(s) => s.clone(),
            None => {
                return None;
            },
        },
        None => {
            return None;
        },
    };
    let snlm0e = match j_lookup(v, "SNlM0e") {
        Some(x) => match j_as_str(x) {
            Some(s) => s.clone(),
            None => {
                return None;
            },
        },
        None => {
            return None;
        },
    };
    let model_name = match j_lookup(v, "model_name") {
        Some(x) => match j_as_str(x) {
            Some(s) => s.clone(),
            None => {
                return None;
            },
        },
        None => {
            return None;
        },
    };
    let timestamp = match j_lookup(v, "timestamp") {
        Some(x) => match j_as_str(x) {
            Some(s) => s.clone(),
            None => {
                return None;
            },
        },
        None => {
            return None;
        },
    };
    let reqid = match j_lookup(v, "_reqid") {
        Some(x) => match x {
            Json::Num(raw) => match parse_u32(raw.as_str().as_bytes()) {
                Some(n) => n,
                None => {
                    return None;
                },
            },
            _ => {
                return None;
            },
        },
        None => {
            return None;
        },
    };
    Some(
        SavedConversation {
            conversation_name,
            reqid,
            conversation_id,
            response_id,
            choice_id,
            snlm0e,
            model_name,
            timestamp,
        },
    )
}

/// Parse a persisted collection: a JSON array of records, each with every
/// field present and well-typed; anything else is a parse failure.
pub fn parse_saved(content: &[u8]) -> (r: Result<Vec<SavedConversation>, Error>)
    ensures
        match json_doc_of(content@) {
            Some(Json::Arr(entries)) => match r {
                Ok(cs) => entries_match(entries@, cs@),
                Err(e) => e matches Error::Parse(_) && !entries_all_ok(entries@),
            },
            _ => (r matches Err(Error::Parse(m)) && m@
                == "conversation file does not hold a JSON array of records"@),
        },
{
    let entries = match parse_json(content) {
        Some(Json::Arr(entries)) => entries,
        _ => {
            return Err(
                Error::Parse("conversation file does not hold a JSON array of records".to_owned()),
            );
        },
    };
    let mut out: Vec<SavedConversation> = Vec::new();
    let mut i: usize = 0;
    while i < entries.len()
        invariant
            i <= entries@.len(),
            json_doc_of(content@) == Some(Json::Arr(entries)),
            out@.len() == i,
            forall|j: int| 0 <= j < i ==> entry_matches(entries@[j], out@[j]),
        decreases entries@.len() - i,
    {
        match parse_saved_entry(&entries[i]) {
            Some(c) => {
                out.push(c);
            },
            None => {
                proof {
                    assert(!entries_all_ok(entries@)) by {
                        assert(entry_fields(entries@[i as int]) is None);
                    }
                }
                return Err(
                    Error::Parse("conversation file holds a malformed record".to_owned()),
                );
            },
        }
        i += 1;
    }
    Ok(out)
}

impl Session {
    /// The saved record of this session's state under the given name, with
    /// the given timestamp (seconds since the epoch, as text).
    pub fn make_saved(&self, conversation_name: &str, timestamp: String) -> (r: SavedConversation)
        ensures
            r.conversation_name@ == conversation_name@,
            r.reqid == self.reqid,
            r.conversation_id@ == self.conversation_id@,
            r.response_id@ == self.response_id@,
            r.choice_id@ == self.choice_id@,
            r.snlm0e@ == self.snlm0e@,
            r.model_name@ == self.model.spec_name(),
            r.timestamp@ == timestamp@,
    {
        SavedConversation {
            conversation_name: conversation_name.to_owned(),
            reqid: self.reqid,
            conversation_id: self.conversation_id.clone(),
            response_id: self.response_id.clone(),
            choice_id: self.choice_id.clone(),
            snlm0e: self.snlm0e.clone(),
            model_name: self.model.name().to_owned(),
            timestamp: timestamp,
        }
    }

    /// Restore a saved conversation into this session: the nonce, the
    /// continuation triple and the session token are taken from the record
    /// exactly; the model is resolved by name, and an unknown name leaves
    /// the model unchanged (that is not an error).
    pub fn apply_saved(&mut self, c: &SavedConversation)
        ensures
            final(self).reqid == c.reqid,
            final(self).conversation_id@ == c.conversation_id@,
            final(self).response_id@ == c.response_id@,
            final(self).choice_id@ == c.choice_id@,
            final(self).snlm0e@ == c.snlm0e@,
            final(self).model == (match Model::spec_from_name(c.model_name@) {
                Some(m) => m,
                None => old(self).model,
            }),
            final(self).secure_1psidts == old(self).secure_1psidts,
            final(self).proxy == old(self).proxy,
    {
        self.reqid = c.reqid;
        self.conversation_id = c.conversation_id.clone();
        self.response_id = c.response_id.clone();
        self.choice_id = c.choice_id.clone();
        self.snlm0e = c.snlm0e.clone();
        match Model::from_name(c.model_name.as_str()) {
            Some(m) => {
                self.model = m;
            },
            None => {},
        }
    }
}

} // verus!
