//! Cookie-file scanning and upload-outcome decisions.

use vstd::prelude::*;
use vstd::string::StringExecFns;
use vstd::utf8::encode_utf8;

use crate::error::Error;
use crate::decoder::opt_str;
use crate::json::Json;
use crate::json::j_field;
use crate::json::j_lookup;
use crate::json::j_as_str;
use crate::json::json_doc_of;
use crate::json::parse_json;
use crate::text::bytes_eq;
use crate::text::dec_digits;
use crate::text::u32_to_string;

verus! {

/// The ASCII-uppercase of one byte.
pub open spec fn upper_byte(b: u8) -> u8 {
    if 97 <= b <= 122 {
        (b - 32) as u8
    } else {
        b
    }
}

/// The ASCII-uppercase of a byte sequence.
pub open spec fn ascii_upper(b: Seq<u8>) -> Seq<u8> {
    b.map(|i: int, x: u8| upper_byte(x))
}

fn to_upper_bytes(v: &[u8]) -> (r: Vec<u8>)
    ensures
        r@ == ascii_upper(v@),
{
    let mut r: Vec<u8> = Vec::new();
    let mut i: usize = 0;
    while i < v.len()
        invariant
            i <= v@.len(),
            r@.len() == i,
            forall|j: int| 0 <= j < i ==> r@[j] == upper_byte(v@[j]),
        decreases v@.len() - i,
    {
        let b = v[i];
        if 97 <= b && b <= 122 {
            r.push(b - 32);
        } else {
            r.push(b);
        }
        i += 1;
    }
    proof {
        assert(r@ =~= ascii_upper(v@));
    }
    r
}

/// The name and value of one cookie record, when it is an object with both
/// fields as strings.
pub open spec fn cookie_entry(v: Json) -> Option<(Seq<char>, Seq<char>)> {
    match (opt_str(j_field(v, "name"@)), opt_str(j_field(v, "value"@))) {
        (Some(n), Some(w)) => Some((n, w)),
        _ => None,
    }
}

/// Whether a cookie name reads as the given required name once uppercased
/// (the match is case-insensitive).
pub open spec fn name_matches(n: Seq<char>, required: Seq<char>) -> bool {
    ascii_upper(encode_utf8(n)) == encode_utf8(required)
}

/// The final values of the two required cookies after scanning the records
/// in order, starting from the given held values; the later of two records
/// with the same name wins. `None` when some record is malformed.
pub open spec fn scan_cookies(
    entries: Seq<Json>,
    psid: Option<Seq<char>>,
    psidts: Option<Seq<char>>,
) -> Option<(Option<Seq<char>>, Option<Seq<char>>)>
    decreases entries.len(),
{
    if entries.len() == 0 {
        Some((psid, psidts))
    } else {
        match cookie_entry(entries[0]) {
            None => None,
            Some(nw) => if name_matches(nw.0, "__SECURE-1PSID"@) {
                scan_cookies(entries.skip(1), Some(nw.1), psidts)
            } else if name_matches(nw.0, "__SECURE-1PSIDTS"@) {
                scan_cookies(entries.skip(1), psid, Some(nw.1))
            } else {
                scan_cookies(entries.skip(1), psid, psidts)
            },
        }
    }
}

/// The view of an optional string.
pub open spec fn view_opt(o: Option<String>) -> Option<Seq<char>> {
    match o {
        Some(s) => Some(s@),
        None => None,
    }
}

/// Read the two required authentication cookies out of a cookie file's
/// contents: a JSON array of `{name, value}` records, names matched
/// case-insensitively. Missing cookies are reported each by its own error;
/// a malformed document or record is a cookie error.
pub fn load_cookies(content: &[u8]) -> (r: Result<(String, String), Error>)
    ensures
        match json_doc_of(content@) {
            Some(Json::Arr(entries)) => match scan_cookies(entries@, None, None) {
                Some(acc) => match acc {
                    (Some(p), Some(t)) => (r matches Ok(pt) && pt.0@ == p && pt.1@ == t),
                    (None, _) => (r matches Err(Error::Cookie(m)) && m@
                        == "Required cookie __Secure-1PSID not found"@),
                    (Some(_), None) => (r matches Err(Error::Cookie(m)) && m@
                        == "Required cookie __Secure-1PSIDTS not found"@),
                },
                None => (r matches Err(Error::Cookie(m)) && m@
                    == "Invalid JSON format in cookie file"@),
            },
            _ => (r matches Err(Error::Cookie(m)) && m@ == "Invalid JSON format in cookie file"@),
        },
{
    let doc = parse_json(content);
    let entries = match doc {
        Some(Json::Arr(entries)) => entries,
        _ => {
            return Err(Error::Cookie("Invalid JSON format in cookie file".to_owned()));
        },
    };
    let mut psid: Option<String> = None;
    let mut psidts: Option<String> = None;
    let mut i: usize = 0;
    proof {
        assert(entries@.skip(0) =~= entries@);
    }
    while i < entries.len()
        invariant
            i <= entries@.len(),
            json_doc_of(content@) == Some(Json::Arr(entries)),
            scan_cookies(entries@, None, None) == scan_cookies(
                entries@.skip(i as int),
                view_opt(psid),
                view_opt(psidts),
            ),
        decreases entries@.len() - i,
    {
        proof {
            assert(entries@.skip(i as int)[0] == entries@[i as int]);
            assert(entries@.skip(i as int).skip(1) =~= entries@.skip(i as int + 1));
        }
        let e = &entries[i];
        let name = match j_lookup(e, "name") {
            Some(x) => match j_as_str(x) {
                Some(s) => s,
                None => {
                    return Err(Error::Cookie("Invalid JSON format in cookie file".to_owned()));
                },
            },
            None => {
                return Err(Error::Cookie("Invalid JSON format in cookie file".to_owned()));
            },
        };
        let value = match j_lookup(e, "value") {
            Some(x) => match j_as_str(x) {
                Some(s) => s,
                None => {
                    return Err(Error::Cookie("Invalid JSON format in cookie file".to_owned()));
                },
            },
            None => {
                return Err(Error::Cookie("Invalid JSON format in cookie file".to_owned()));
            },
        };
        let upper = to_upper_bytes(name.as_str().as_bytes());
        if bytes_eq(upper.as_slice(), "__SECURE-1PSID".as_bytes()) {
            psid = Some(value.clone());
        } else if bytes_eq(upper.as_slice(), "__SECURE-1PSIDTS".as_bytes()) {
            psidts = Some(value.clone());
        }
        i += 1;
    }
    match (psid, psidts) {
        (Some(p), Some(t)) => Ok((p, t)),
        (None, _) => Err(Error::Cookie("Required cookie __Secure-1PSID not found".to_owned())),
        (_, None) => Err(Error::Cookie("Required cookie __Secure-1PSIDTS not found".to_owned())),
    }
}

/// The two authentication cookies as name and value pairs, ready for a
/// cookie store.
pub fn cookies_to_map(secure_1psid: &str, secure_1psidts: &str) -> (r: Vec<(String, String)>)
    ensures
        r@.len() == 2,
        r@[0].0@ == "__Secure-1PSID"@,
        r@[0].1@ == secure_1psid@,
        r@[1].0@ == "__Secure-1PSIDTS"@,
        r@[1].1@ == secure_1psidts@,
{
    let mut r: Vec<(String, String)> = Vec::new();
    r.push(("__Secure-1PSID".to_owned(), secure_1psid.to_owned()));
    r.push(("__Secure-1PSIDTS".to_owned(), secure_1psidts.to_owned()));
    r
}

/// Decide what an upload response means: on a success status the raw
/// response text is the uploaded asset's identifier; any other status is an
/// upload failure carrying it.
pub fn upload_outcome(status: u16, body: String) -> (r: Result<String, Error>)
    ensures
        (200 <= status < 300) ==> (r matches Ok(t) && t@ == body@),
        !(200 <= status < 300) ==> (r matches Err(Error::Upload(m)) && m@
            == "Upload failed with status: "@ + dec_digits(status as int)),
{
    if 200 <= status && status < 300 {
        Ok(body)
    } else {
        let mut m = "Upload failed with status: ".to_owned();
        m.append(u32_to_string(status as u32).as_str());
        Err(Error::Upload(m))
    }
}

} // verus!
