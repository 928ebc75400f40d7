//! The broker's message frames.
//!
//! Messages relayed between host and client travel as JSON-shaped text. The
//! two frames the broker itself builds — the join announcement and the ICE
//! candidate relay — are assembled here, with string payloads escaped so
//! that an arbitrary client name, offer or candidate cannot break out of its
//! quoted position.

use crate::text::chars_of;
use crate::text::string_from_chars;
use vstd::prelude::*;
use vstd::string::StringExecFns;

verus! {

/// The lower-case hex digit for a value below 16.
pub open spec fn hex_digit(n: int) -> char {
    if n == 0 {
        '0'
    } else if n == 1 {
        '1'
    } else if n == 2 {
        '2'
    } else if n == 3 {
        '3'
    } else if n == 4 {
        '4'
    } else if n == 5 {
        '5'
    } else if n == 6 {
        '6'
    } else if n == 7 {
        '7'
    } else if n == 8 {
        '8'
    } else if n == 9 {
        '9'
    } else if n == 10 {
        'a'
    } else if n == 11 {
        'b'
    } else if n == 12 {
        'c'
    } else if n == 13 {
        'd'
    } else if n == 14 {
        'e'
    } else {
        'f'
    }
}

/// How one character appears inside a quoted JSON string: quotes and
/// backslashes are backslash-escaped, control characters become `\u00XX`,
/// everything else stands as itself.
pub open spec fn escape_char(c: char) -> Seq<char> {
    if c == '"' {
        seq!['\\', '"']
    } else if c == '\\' {
        seq!['\\', '\\']
    } else if (c as u32) < 32 {
        seq![
            '\\',
            'u',
            '0',
            '0',
            hex_digit((c as u32) as int / 16),
            hex_digit((c as u32) as int % 16),
        ]
    } else {
        seq![c]
    }
}

/// A whole string escaped character by character.
pub open spec fn escape_seq(s: Seq<char>) -> Seq<char>
    decreases s.len(),
{
    if s.len() == 0 {
        Seq::empty()
    } else {
        escape_char(s[0]) + escape_seq(s.drop_first())
    }
}

proof fn lemma_escape_append_one(s: Seq<char>, c: char)
    ensures
        escape_seq(s.push(c)) == escape_seq(s) + escape_char(c),
    decreases s.len(),
{
    let t = s.push(c);
    if s.len() == 0 {
        assert(t.drop_first() =~= Seq::<char>::empty());
        assert(escape_seq(t) == escape_char(t[0]) + escape_seq(t.drop_first()));
        assert(escape_seq(t) =~= escape_seq(s) + escape_char(c));
    } else {
        assert(t.drop_first() =~= s.drop_first().push(c));
        lemma_escape_append_one(s.drop_first(), c);
        assert(escape_seq(t) == escape_char(t[0]) + escape_seq(t.drop_first()));
        assert(t[0] == s[0]);
        assert(escape_seq(t) =~= escape_seq(s) + escape_char(c));
    }
}

fn hex_char(n: u32) -> (c: char)
    requires
        n < 16,
    ensures
        c == hex_digit(n as int),
{
    if n == 0 {
        '0'
    } else if n == 1 {
        '1'
    } else if n == 2 {
        '2'
    } else if n == 3 {
        '3'
    } else if n == 4 {
        '4'
    } else if n == 5 {
        '5'
    } else if n == 6 {
        '6'
    } else if n == 7 {
        '7'
    } else if n == 8 {
        '8'
    } else if n == 9 {
        '9'
    } else if n == 10 {
        'a'
    } else if n == 11 {
        'b'
    } else if n == 12 {
        'c'
    } else if n == 13 {
        'd'
    } else if n == 14 {
        'e'
    } else {
        'f'
    }
}

fn push_escaped(out: &mut Vec<char>, c: char)
    ensures
        final(out)@ == old(out)@ + escape_char(c),
{
    if c == '"' {
        out.push('\\');
        out.push('"');
    } else if c == '\\' {
        out.push('\\');
        out.push('\\');
    } else if (c as u32) < 32 {
        let v = c as u32;
        out.push('\\');
        out.push('u');
        out.push('0');
        out.push('0');
        out.push(hex_char(v / 16));
        out.push(hex_char(v % 16));
    } else {
        out.push(c);
    }
    proof {
        assert(out@ =~= old(out)@ + escape_char(c));
    }
}

/// The escaped form of a string, ready to stand between quotes in a frame.
pub fn json_escape(s: &str) -> (r: String)
    ensures
        r@ == escape_seq(s@),
{
    let cs = chars_of(s);
    let n = cs.len();
    let mut out: Vec<char> = Vec::new();
    let mut i: usize = 0;
    while i < n
        invariant
            i <= n,
            n == s@.len(),
            cs@ == s@,
            out@ == escape_seq(s@.subrange(0, i as int)),
        decreases n - i,
    {
        push_escaped(&mut out, cs[i]);
        proof {
            lemma_escape_append_one(s@.subrange(0, i as int), s@[i as int]);
            assert(s@.subrange(0, i as int).push(s@[i as int]) =~= s@.subrange(
                0,
                i as int + 1,
            ));
        }
        i += 1;
    }
    proof {
        assert(s@.subrange(0, n as int) =~= s@);
    }
    string_from_chars(&out)
}

/// A payload in its quoted, escaped JSON position.
pub open spec fn quoted(s: Seq<char>) -> Seq<char> {
    "\""@ + escape_seq(s) + "\""@
}

/// The items of a JSON array of quoted strings, comma-separated.
pub open spec fn candidate_list(cs: Seq<Seq<char>>) -> Seq<char>
    decreases cs.len(),
{
    if cs.len() == 0 {
        Seq::empty()
    } else if cs.len() == 1 {
        quoted(cs[0])
    } else {
        quoted(cs[0]) + ","@ + candidate_list(cs.drop_first())
    }
}

proof fn lemma_candidate_append_one(cs: Seq<Seq<char>>, c: Seq<char>)
    requires
        cs.len() > 0,
    ensures
        candidate_list(cs.push(c)) == candidate_list(cs) + ","@ + quoted(c),
    decreases cs.len(),
{
    let t = cs.push(c);
    if cs.len() == 1 {
        assert(t.drop_first() =~= seq![c]);
        assert(candidate_list(t) == quoted(t[0]) + ","@ + candidate_list(t.drop_first()));
        assert(t[0] == cs[0]);
        assert(candidate_list(t) =~= candidate_list(cs) + ","@ + quoted(c));
    } else {
        assert(t.drop_first() =~= cs.drop_first().push(c));
        lemma_candidate_append_one(cs.drop_first(), c);
        assert(candidate_list(t) == quoted(t[0]) + ","@ + candidate_list(t.drop_first()));
        assert(t[0] == cs[0]);
        assert(candidate_list(t) =~= candidate_list(cs) + ","@ + quoted(c));
    }
}

/// The comma-separated quoted items of `cs`, as text.
fn build_candidate_list(cs: &Vec<String>) -> (r: String)
    ensures
        r@ == candidate_list(cs.deep_view()),
{
    let mut out = String::new();
    let n = cs.len();
    let mut i: usize = 0;
    while i < n
        invariant
            i <= n,
            n == cs@.len(),
            cs.deep_view().len() == n,
            forall|j: int| 0 <= j < n ==> cs.deep_view()[j] == cs@[j]@,
            out@ == candidate_list(cs.deep_view().subrange(0, i as int)),
        decreases n - i,
    {
        if i > 0 {
            out.append(",");
        }
        out.append("\"");
        let e = json_escape(cs[i].as_str());
        out.append(e.as_str());
        out.append("\"");
        proof {
            let pre = cs.deep_view().subrange(0, i as int);
            assert(pre.push(cs.deep_view()[i as int]) =~= cs.deep_view().subrange(
                0,
                i as int + 1,
            ));
            if i > 0 {
                lemma_candidate_append_one(pre, cs.deep_view()[i as int]);
                assert(out@ =~= candidate_list(cs.deep_view().subrange(0, i as int + 1)));
            } else {
                assert(cs.deep_view().subrange(0, 1) =~= seq![cs.deep_view()[0]]);
                assert(out@ =~= candidate_list(cs.deep_view().subrange(0, 1)));
            }
        }
        i += 1;
    }
    proof {
        assert(cs.deep_view().subrange(0, n as int) =~= cs.deep_view());
    }
    out
}

/// The frame a join pushes to the host: the joining client's name and its
/// connection offer, announced under the `start_join` tag.
pub open spec fn start_join_frame(client: Seq<char>, offer: Seq<char>) -> Seq<char> {
    "{\"type\":\"start_join\",\"client_name\":\""@ + escape_seq(client)
        + "\",\"client_offer\":\""@ + escape_seq(offer) + "\"}"@
}

/// The frame a client's ICE relay pushes to the host.
pub open spec fn client_ice_frame(client: Seq<char>, cands: Seq<Seq<char>>) -> Seq<char> {
    "{\"type\":\"ice_candidate\",\"client_name\":\""@ + escape_seq(client)
        + "\",\"candidates\":["@ + candidate_list(cands) + "]}"@
}

/// The frame a host's ICE relay pushes to a client.
pub open spec fn host_ice_frame(cands: Seq<Seq<char>>) -> Seq<char> {
    "{\"type\":\"ice_candidate\",\"candidates\":["@ + candidate_list(cands) + "]}"@
}

/// Build the `start_join` frame for this client and offer.
pub fn make_start_join(client: &str, offer: &str) -> (r: String)
    ensures
        r@ == start_join_frame(client@, offer@),
{
    let mut s = String::new();
    s.append("{\"type\":\"start_join\",\"client_name\":\"");
    let ec = json_escape(client);
    s.append(ec.as_str());
    s.append("\",\"client_offer\":\"");
    let eo = json_escape(offer);
    s.append(eo.as_str());
    s.append("\"}");
    proof {
        assert(s@ =~= start_join_frame(client@, offer@));
    }
    s
}

/// Build the client-to-host ICE candidate frame.
pub fn make_client_ice(client: &str, cands: &Vec<String>) -> (r: String)
    ensures
        r@ == client_ice_frame(client@, cands.deep_view()),
{
    let mut s = String::new();
    s.append("{\"type\":\"ice_candidate\",\"client_name\":\"");
    let ec = json_escape(client);
    s.append(ec.as_str());
    s.append("\",\"candidates\":[");
    let cl = build_candidate_list(cands);
    s.append(cl.as_str());
    s.append("]}");
    proof {
        assert(s@ =~= client_ice_frame(client@, cands.deep_view()));
    }
    s
}

/// Build the host-to-client ICE candidate frame.
pub fn make_host_ice(cands: &Vec<String>) -> (r: String)
    ensures
        r@ == host_ice_frame(cands.deep_view()),
{
    let mut s = String::new();
    s.append("{\"type\":\"ice_candidate\",\"candidates\":[");
    let cl = build_candidate_list(cands);
    s.append(cl.as_str());
    s.append("]}");
    proof {
        assert(s@ =~= host_ice_frame(cands.deep_view()));
    }
    s
}

} // verus!
