use vstd::prelude::*;

verus! {

/// The characters that stand for `c` inside a quoted path: a backslash or a double quote
/// is preceded by a backslash, every other character stands for itself.
pub open spec fn escape_char(c: char) -> Seq<char> {
    if c == '\\' {
        seq!['\\', '\\']
    } else if c == '"' {
        seq!['\\', '"']
    } else {
        seq![c]
    }
}

/// `s` with every character escaped by `escape_char`.
pub open spec fn escaped(s: Seq<char>) -> Seq<char>
    decreases s.len(),
{
    if s.len() == 0 {
        seq![]
    } else {
        escaped(s.drop_last()) + escape_char(s.last())
    }
}

/// A path as one quoted array element.
pub open spec fn quoted(s: Seq<char>) -> Seq<char> {
    seq!['"'] + escaped(s) + seq!['"']
}

/// The quoted elements, separated by commas.
pub open spec fn joined(ps: Seq<Seq<char>>) -> Seq<char>
    decreases ps.len(),
{
    if ps.len() == 0 {
        seq![]
    } else if ps.len() == 1 {
        quoted(ps[0])
    } else {
        joined(ps.drop_last()) + seq![','] + quoted(ps.last())
    }
}

/// The JSON array text that carries the paths `ps`, in their order.
pub open spec fn json_array(ps: Seq<Seq<char>>) -> Seq<char> {
    seq!['['] + joined(ps) + seq![']']
}

/// The text of each string of `v`.
pub open spec fn texts(v: Seq<String>) -> Seq<Seq<char>> {
    v.map_values(|s: String| s@)
}

// A small grammar of JSON: arrays whose elements are strings, without whitespace.

/// A character that may stand unescaped inside a JSON string.
pub open spec fn is_plain_json_char(c: char) -> bool {
    c != '"' && c != '\\' && c as u32 >= 0x20
}

/// A character that may follow a backslash in a JSON string (other than `u`).
pub open spec fn is_escape_letter(c: char) -> bool {
    c == '"' || c == '\\' || c == '/' || c == 'b' || c == 'f' || c == 'n' || c == 'r' || c == 't'
}

/// A hexadecimal digit.
pub open spec fn is_hex_digit(c: char) -> bool {
    ('0' <= c && c <= '9') || ('a' <= c && c <= 'f') || ('A' <= c && c <= 'F')
}

/// `s` may stand between the quotes of a JSON string: it is a run of plain characters,
/// two-character escapes and `\uXXXX` escapes.
pub open spec fn is_json_string_body(s: Seq<char>) -> bool
    decreases s.len(),
{
    if s.len() == 0 {
        true
    } else {
        let n = s.len();
        (is_plain_json_char(s[n - 1]) && is_json_string_body(s.subrange(0, n - 1)))
        || (n >= 2 && s[n - 2] == '\\' && is_escape_letter(s[n - 1])
            && is_json_string_body(s.subrange(0, n - 2)))
        || (n >= 6 && s[n - 6] == '\\' && s[n - 5] == 'u' && is_hex_digit(s[n - 4])
            && is_hex_digit(s[n - 3]) && is_hex_digit(s[n - 2]) && is_hex_digit(s[n - 1])
            && is_json_string_body(s.subrange(0, n - 6)))
    }
}

/// String tokens whose bodies are `bodies`, separated by commas.
pub open spec fn string_tokens(bodies: Seq<Seq<char>>) -> Seq<char>
    decreases bodies.len(),
{
    if bodies.len() == 0 {
        seq![]
    } else if bodies.len() == 1 {
        seq!['"'] + bodies[0] + seq!['"']
    } else {
        string_tokens(bodies.drop_last()) + seq![','] + seq!['"'] + bodies.last() + seq!['"']
    }
}

/// `s` is a JSON array of strings.
pub open spec fn is_json_string_array(s: Seq<char>) -> bool {
    exists|bodies: Seq<Seq<char>>|
        (forall|i: int| 0 <= i < bodies.len() ==> is_json_string_body(#[trigger] bodies[i]))
        && s == seq!['['] + string_tokens(bodies) + seq![']']
}

/// No character of `s` is a control character (below U+0020).
pub open spec fn has_no_control_chars(s: Seq<char>) -> bool {
    forall|i: int| 0 <= i < s.len() ==> (#[trigger] s[i]) as u32 >= 0x20
}

/// The text of a string body whose escapes are each a backslash followed by the character
/// it stands for: `\\` for a backslash, `\"` for a double quote.
pub open spec fn unescaped(s: Seq<char>) -> Seq<char>
    decreases s.len(),
{
    if s.len() == 0 {
        seq![]
    } else if s[0] == '\\' && s.len() >= 2 {
        seq![s[1]] + unescaped(s.subrange(2, s.len() as int))
    } else {
        seq![s[0]] + unescaped(s.subrange(1, s.len() as int))
    }
}

proof fn lemma_escaped_append(a: Seq<char>, b: Seq<char>)
    ensures
        escaped(a + b) == escaped(a) + escaped(b),
    decreases b.len(),
{
    if b.len() == 0 {
        assert(a + b =~= a);
        assert(escaped(b) =~= seq![]);
        assert(escaped(a) + escaped(b) =~= escaped(a));
    } else {
        lemma_escaped_append(a, b.drop_last());
        assert((a + b).drop_last() =~= a + b.drop_last());
        assert((a + b).last() == b.last());
    }
}

proof fn lemma_escaped_first(s: Seq<char>)
    requires
        s.len() > 0,
    ensures
        escaped(s) == escape_char(s[0]) + escaped(s.subrange(1, s.len() as int)),
{
    let rest = s.subrange(1, s.len() as int);
    assert(s =~= seq![s[0]] + rest);
    lemma_escaped_append(seq![s[0]], rest);
    let one = seq![s[0]];
    assert(one.drop_last() =~= Seq::<char>::empty());
    assert(one.last() == s[0]);
    assert(escaped(Seq::<char>::empty()) == Seq::<char>::empty());
    assert(escaped(one) =~= escape_char(s[0]));
}

/// Reading an escaped path back gives the path: escaping loses nothing.
pub proof fn escaping_round_trips(s: Seq<char>)
    ensures
        unescaped(escaped(s)) == s,
    decreases s.len(),
{
    if s.len() > 0 {
        let rest = s.subrange(1, s.len() as int);
        lemma_escaped_first(s);
        escaping_round_trips(rest);
        let e = escaped(s);
        let k = escape_char(s[0]).len() as int;
        assert(e.subrange(k, e.len() as int) =~= escaped(rest));
        assert(unescaped(e) =~= seq![s[0]] + unescaped(escaped(rest)));
        assert(s =~= seq![s[0]] + rest);
    }
}

/// Escapes the backslashes and double quotes of `s`; nothing else is escaped.
pub fn escape(s: &str) -> (r: String)
    ensures
        r@ == escaped(s@),
{
    let n = s.unicode_len();
    let mut out = String::new();
    let mut i: usize = 0;
    while i < n
        invariant
            n == s@.len(),
            i <= n,
            out@ == escaped(s@.subrange(0, i as int)),
        decreases n - i,
    {
        let c = s.get_char(i);
        let ghost before = s@.subrange(0, i as int);
        assert(s@.subrange(0, i + 1).drop_last() == before);
        assert(s@.subrange(0, i + 1).last() == c);
        assert(escaped(s@.subrange(0, i + 1)) == escaped(before) + escape_char(c));
        if c == '\\' {
            proof {
                reveal_strlit("\\\\");
            }
            out.append("\\\\");
            assert("\\\\"@ =~= seq!['\\', '\\']);
        } else if c == '"' {
            proof {
                reveal_strlit("\\\"");
            }
            out.append("\\\"");
            assert("\\\""@ =~= seq!['\\', '"']);
        } else {
            out.append(s.substring_char(i, i + 1));
            assert(s@.subrange(i as int, i + 1) == seq![c]);
        }
        i = i + 1;
    }
    assert(s@.subrange(0, n as int) == s@);
    out
}

/// The JSON array of strings that carries `paths`, in their order: each path between
/// double quotes, escaped by `escape`, the elements separated by commas, with no whitespace.
pub fn paths_to_json(paths: &Vec<String>) -> (r: String)
    ensures
        r@ == json_array(texts(paths@)),
{
    let ghost ps = texts(paths@);
    let mut out = String::new();
    proof {
        reveal_strlit("[");
    }
    out.append("[");
    assert(out@ =~= seq!['['] + joined(ps.subrange(0, 0)));
    let mut i: usize = 0;
    while i < paths.len()
        invariant
            ps == texts(paths@),
            i <= paths@.len(),
            out@ == seq!['['] + joined(ps.subrange(0, i as int)),
        decreases paths@.len() - i,
    {
        let ghost prev = out@;
        assert(ps.subrange(0, i + 1).drop_last() == ps.subrange(0, i as int));
        assert(ps.subrange(0, i + 1).last() == paths@[i as int]@);
        if i > 0 {
            proof {
                reveal_strlit(",");
            }
            out.append(",");
        }
        proof {
            reveal_strlit("\"");
        }
        out.append("\"");
        let e = escape(paths[i].as_str());
        out.append(e.as_str());
        out.append("\"");
        if i > 0 {
            assert(out@ =~= prev + seq![','] + quoted(paths@[i as int]@));
        } else {
            assert(out@ =~= prev + quoted(paths@[i as int]@));
        }
        i = i + 1;
    }
    proof {
        reveal_strlit("]");
    }
    out.append("]");
    assert(ps.subrange(0, paths@.len() as int) == ps);
    assert(out@ =~= json_array(ps));
    out
}

proof fn lemma_escaped_is_body(s: Seq<char>)
    requires
        has_no_control_chars(s),
    ensures
        is_json_string_body(escaped(s)),
    decreases s.len(),
{
    if s.len() > 0 {
        let init = s.drop_last();
        assert forall|i: int| 0 <= i < init.len() implies (#[trigger] init[i]) as u32 >= 0x20 by {
            assert(init[i] == s[i]);
        }
        lemma_escaped_is_body(init);
        let c = s.last();
        let e = escaped(s);
        let n = e.len();
        assert(s[s.len() - 1] as u32 >= 0x20);
        if c == '\\' || c == '"' {
            assert(e.subrange(0, n - 2) =~= escaped(init));
        } else {
            assert(e.subrange(0, n - 1) =~= escaped(init));
        }
    }
}

proof fn lemma_joined_tokens(ps: Seq<Seq<char>>)
    ensures
        joined(ps) == string_tokens(ps.map_values(|p: Seq<char>| escaped(p))),
    decreases ps.len(),
{
    let es = ps.map_values(|p: Seq<char>| escaped(p));
    if ps.len() > 1 {
        lemma_joined_tokens(ps.drop_last());
        assert(ps.drop_last().map_values(|p: Seq<char>| escaped(p)) =~= es.drop_last());
        assert(joined(ps) =~= string_tokens(es));
    } else if ps.len() == 1 {
        assert(joined(ps) =~= string_tokens(es));
    }
}

/// The text that `paths_to_json` builds is a JSON array of strings whenever no path
/// holds a control character (which JSON would want escaped as well).
pub proof fn paths_json_is_string_array(ps: Seq<Seq<char>>)
    requires
        forall|i: int| 0 <= i < ps.len() ==> has_no_control_chars(#[trigger] ps[i]),
    ensures
        is_json_string_array(json_array(ps)),
{
    let es = ps.map_values(|p: Seq<char>| escaped(p));
    assert forall|i: int| 0 <= i < es.len() implies is_json_string_body(#[trigger] es[i]) by {
        lemma_escaped_is_body(ps[i]);
    }
    lemma_joined_tokens(ps);
    assert(json_array(ps) == seq!['['] + string_tokens(es) + seq![']']);
}

} // verus!
