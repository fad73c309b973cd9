//! Wire messages: the request read from a frame, the response written
//! back, and the JSON text of structured results.
//!
//! JSON itself is handled by an outside library behind two trusted
//! items; everything assembled from its output is verified against the
//! named results.

use vstd::prelude::*;
use crate::props::PropsV;
use crate::strutil::{spec_join, lemma_join_push};

verus! {

/// The JSON text of a string: the canonical quoted, escaped form that
/// the JSON library produces.
pub uninterp spec fn json_str(s: Seq<char>) -> Seq<char>;

/// Relies on serde_json::to_string on a string slice: it yields the
/// quoted, escaped JSON text, a function of the characters alone, and
/// cannot fail on a string.
#[verifier::external_body]
pub fn json_quote(s: &str) -> (r: String)
    ensures
        r@ == json_str(s@),
{
    match serde_json::to_string(s) {
        Ok(t) => t,
        Err(_) => String::new(),
    }
}

/// What parsing a request message yields: the subject, the command,
/// and the string-valued parameters, or nothing for text that is not
/// such a message.
pub uninterp spec fn parsed_request(text: Seq<char>) -> Option<
    (Seq<char>, Seq<char>, Seq<(Seq<char>, Seq<char>)>),
>;

/// One decoded request: a subject selecting the handler group, a
/// command selecting the operation, and a string-keyed parameter map.
pub struct Request {
    pub subject: String,
    pub command: String,
    pub params: Vec<(String, String)>,
}

/// Relies on serde_json::from_str: parsing is a function of the text
/// alone.  The text must be a JSON object with string fields "subject"
/// and "command" and an object field "params" whose values are all
/// strings; anything else is a protocol error, reported as None.
#[verifier::external_body]
pub fn decode_request(text: &str) -> (r: Option<Request>)
    ensures
        match r {
            Some(req) => parsed_request(text@) == Some(
                (req.subject@, req.command@, req.params.deep_view()),
            ),
            None => parsed_request(text@) is None,
        },
{
    let v: serde_json::Value = match serde_json::from_str(text) {
        Ok(v) => v,
        Err(_) => {
            return None;
        },
    };
    let subject = v.get("subject")?.as_str()?.to_owned();
    let command = v.get("command")?.as_str()?.to_owned();
    let obj = v.get("params")?.as_object()?;
    let mut params: Vec<(String, String)> = Vec::new();
    for (k, val) in obj {
        params.push((k.clone(), val.as_str()?.to_owned()));
    }
    Some(Request { subject, command, params })
}

/// The text of a response message carrying `lines`.
pub open spec fn spec_response_text(lines: Seq<char>) -> Seq<char> {
    "{\"lines\":"@ + json_str(lines) + "}"@
}

/// Encodes a response message carrying `lines`.
pub fn encode_response(lines: &str) -> (r: String)
    ensures
        r@ == spec_response_text(lines@),
{
    let quoted = json_quote(lines);
    let mut s: String = "{\"lines\":".to_owned();
    s.append(quoted.as_str());
    s.append("}");
    s
}

/// The JSON text of one property pair.
pub open spec fn spec_prop_json(p: (Seq<char>, Seq<char>)) -> Seq<char> {
    "{\"property\":"@ + json_str(p.0) + ",\"value\":"@ + json_str(p.1) + "}"@
}

/// The JSON text of a property listing: an array of objects, one per
/// pair, in listing order.
pub open spec fn spec_props_json(props: PropsV) -> Seq<char> {
    "["@ + spec_join(props.map_values(|p: (Seq<char>, Seq<char>)| spec_prop_json(p)), ","@) + "]"@
}

/// Encodes a property listing as JSON text.
pub fn props_json(props: &Vec<(String, String)>) -> (r: String)
    ensures
        r@ == spec_props_json(props.deep_view()),
{
    let ghost pv = props.deep_view();
    let ghost items = pv.map_values(|p: (Seq<char>, Seq<char>)| spec_prop_json(p));
    let n = props.len();
    let mut body: String = String::new();
    let mut i: usize = 0;
    proof {
        assert(items.take(0) =~= Seq::empty());
    }
    while i < n
        invariant
            n == props.len(),
            pv == props.deep_view(),
            items == pv.map_values(|p: (Seq<char>, Seq<char>)| spec_prop_json(p)),
            i <= n,
            body@ == spec_join(items.take(i as int), ","@),
        decreases n - i,
    {
        if i > 0 {
            body.append(",");
        }
        let kq = json_quote(props[i].0.as_str());
        let vq = json_quote(props[i].1.as_str());
        body.append("{\"property\":");
        body.append(kq.as_str());
        body.append(",\"value\":");
        body.append(vq.as_str());
        body.append("}");
        proof {
            assert(pv[i as int] == (props@[i as int].0@, props@[i as int].1@));
            assert(items[i as int] == spec_prop_json(pv[i as int]));
            assert(items.take(i + 1) =~= items.take(i as int).push(items[i as int]));
            lemma_join_push(items.take(i as int), ","@, items[i as int]);
            if i > 0 {
                assert(body@ == spec_join(items.take(i as int), ","@) + ","@ + items[i as int])
                    by {
                    assert(items[i as int] =~= "{\"property\":"@ + kq@ + ",\"value\":"@ + vq@
                        + "}"@);
                }
            } else {
                assert(body@ =~= items[0]);
            }
        }
        i = i + 1;
    }
    proof {
        assert(items.take(n as int) =~= items);
    }
    let mut out: String = "[".to_owned();
    out.append(body.as_str());
    out.append("]");
    out
}

} // verus!
