use vstd::prelude::*;
use vstd::string::*;

verus! {

// Plain string building for the session layer: decimal rendering,
// JSON string escaping, the space-join of transcript pieces and its
// inverse split, and on-disk path assembly.

/// Relies on `String::push`: appends exactly the given character.
#[verifier::external_body]
pub(crate) fn push_char(s: &mut String, c: char)
    ensures
        final(s)@ == old(s)@.push(c),
{
    s.push(c)
}

/// The decimal digit character for a value below ten.
pub open spec fn digit_char(d: int) -> char {
    if d == 0 { '0' }
    else if d == 1 { '1' }
    else if d == 2 { '2' }
    else if d == 3 { '3' }
    else if d == 4 { '4' }
    else if d == 5 { '5' }
    else if d == 6 { '6' }
    else if d == 7 { '7' }
    else if d == 8 { '8' }
    else { '9' }
}

/// The decimal rendering of a number, most significant digit first.
pub open spec fn dec_digits(n: int) -> Seq<char>
    decreases n,
{
    if n < 10 {
        seq![digit_char(n)]
    } else {
        dec_digits(n / 10).push(digit_char(n % 10))
    }
}

fn digit_to_char(d: u64) -> (c: char)
    requires
        d < 10,
    ensures
        c == digit_char(d as int),
{
    match d {
        0 => '0',
        1 => '1',
        2 => '2',
        3 => '3',
        4 => '4',
        5 => '5',
        6 => '6',
        7 => '7',
        8 => '8',
        _ => '9',
    }
}

/// Renders a number in decimal.
pub fn u64_to_string(n: u64) -> (r: String)
    ensures
        r@ == dec_digits(n as int),
    decreases n,
{
    if n < 10 {
        let mut s = String::new();
        push_char(&mut s, digit_to_char(n));
        proof {
            assert(s@ =~= dec_digits(n as int));
        }
        s
    } else {
        let mut s = u64_to_string(n / 10);
        push_char(&mut s, digit_to_char(n % 10));
        s
    }
}

/// How one character is written inside a JSON string literal: quote and
/// backslash are escaped, the common control characters get their short
/// escapes, any other control character is flattened to a space, and
/// everything else stands as itself.
pub open spec fn escaped_char(c: char) -> Seq<char> {
    if c == '"' { seq!['\\', '"'] }
    else if c == '\\' { seq!['\\', '\\'] }
    else if c == '\n' { seq!['\\', 'n'] }
    else if c == '\r' { seq!['\\', 'r'] }
    else if c == '\t' { seq!['\\', 't'] }
    else if (c as int) < 32 { seq![' '] }
    else { seq![c] }
}

/// A whole string escaped for JSON, character by character.
pub open spec fn json_escaped(s: Seq<char>) -> Seq<char>
    decreases s.len(),
{
    if s.len() == 0 {
        Seq::empty()
    } else {
        json_escaped(s.drop_last()) + escaped_char(s.last())
    }
}

/// A JSON string literal holding the given text: quoted and escaped.
pub open spec fn json_quoted(s: Seq<char>) -> Seq<char> {
    seq!['"'] + json_escaped(s) + seq!['"']
}

fn append_escaped_char(out: &mut String, c: char)
    ensures
        final(out)@ == old(out)@ + escaped_char(c),
{
    if c == '"' {
        push_char(out, '\\');
        push_char(out, '"');
    } else if c == '\\' {
        push_char(out, '\\');
        push_char(out, '\\');
    } else if c == '\n' {
        push_char(out, '\\');
        push_char(out, 'n');
    } else if c == '\r' {
        push_char(out, '\\');
        push_char(out, 'r');
    } else if c == '\t' {
        push_char(out, '\\');
        push_char(out, 't');
    } else if (c as u32) < 32 {
        push_char(out, ' ');
    } else {
        push_char(out, c);
    }
    proof {
        assert(final(out)@ =~= old(out)@ + escaped_char(c));
    }
}

/// Appends a JSON string literal holding the given text.
pub fn append_json_quoted(out: &mut String, s: &str)
    ensures
        final(out)@ == old(out)@ + json_quoted(s@),
{
    let n = s.unicode_len();
    push_char(out, '"');
    let mut i: usize = 0;
    while i < n
        invariant
            i <= n,
            n == s@.len(),
            out@ == old(out)@ + seq!['"'] + json_escaped(s@.take(i as int)),
        decreases n - i,
    {
        let c = s.get_char(i);
        append_escaped_char(out, c);
        i = i + 1;
        proof {
            assert(s@.take(i as int).drop_last() =~= s@.take(i as int - 1));
            assert(s@.take(i as int).last() == s@[i as int - 1]);
            assert(out@ =~= old(out)@ + seq!['"'] + json_escaped(s@.take(i as int)));
        }
    }
    push_char(out, '"');
    proof {
        assert(s@.take(n as int) =~= s@);
        assert(final(out)@ =~= old(out)@ + json_quoted(s@));
    }
}

/// The space-join of a sequence of texts: the texts in order with one
/// space between neighbours.
pub open spec fn join_texts(ts: Seq<Seq<char>>) -> Seq<char>
    decreases ts.len(),
{
    if ts.len() == 0 {
        Seq::empty()
    } else if ts.len() == 1 {
        ts[0]
    } else {
        join_texts(ts.drop_last()) + seq![' '] + ts.last()
    }
}

/// The views of a sequence of owned strings.
pub open spec fn views_of(ts: Seq<String>) -> Seq<Seq<char>> {
    ts.map_values(|t: String| t@)
}

/// Joins texts with single spaces.
pub fn join_with_spaces(texts: &Vec<String>) -> (r: String)
    ensures
        r@ == join_texts(views_of(texts@)),
{
    let mut out = String::new();
    let mut i: usize = 0;
    while i < texts.len()
        invariant
            i <= texts@.len(),
            out@ == join_texts(views_of(texts@).take(i as int)),
        decreases texts@.len() - i,
    {
        if i > 0 {
            out.append(" ");
            proof {
                reveal_strlit(" ");
            }
        }
        out.append(texts[i].as_str());
        i = i + 1;
        proof {
            let vs = views_of(texts@);
            assert(vs.take(i as int).drop_last() =~= vs.take(i as int - 1));
            assert(vs.take(i as int).last() == texts@[i as int - 1]@);
            assert(out@ =~= join_texts(vs.take(i as int)));
        }
    }
    proof {
        assert(views_of(texts@).take(texts@.len() as int) =~= views_of(texts@));
    }
    out
}

/// True when no character of the text is a space.
pub open spec fn space_free(t: Seq<char>) -> bool {
    forall|i: int| 0 <= i < t.len() ==> t[i] != ' '
}

/// Splits a text at single spaces. The pieces are space-free and their
/// space-join is the input again, which pins the result down exactly.
pub fn split_spaces(s: &str) -> (r: Vec<String>)
    ensures
        r@.len() >= 1,
        forall|k: int| 0 <= k < r@.len() ==> space_free(#[trigger] r@[k]@),
        join_texts(views_of(r@)) == s@,
{
    let n = s.unicode_len();
    let mut pieces: Vec<String> = Vec::new();
    let mut cur = String::new();
    let mut i: usize = 0;
    while i < n
        invariant
            i <= n,
            n == s@.len(),
            forall|k: int| 0 <= k < pieces@.len() ==> space_free(#[trigger] pieces@[k]@),
            space_free(cur@),
            join_texts(views_of(pieces@).push(cur@)) == s@.take(i as int),
        decreases n - i,
    {
        let c = s.get_char(i);
        let ghost old_pieces = pieces@;
        let ghost old_cur = cur@;
        if c == ' ' {
            pieces.push(cur);
            cur = String::new();
            proof {
                let vs = views_of(pieces@).push(cur@);
                assert(vs.drop_last() =~= views_of(old_pieces).push(old_cur));
                assert(join_texts(vs) =~= s@.take(i as int + 1));
            }
        } else {
            push_char(&mut cur, c);
            proof {
                let vs0 = views_of(old_pieces).push(old_cur);
                let vs1 = views_of(old_pieces).push(cur@);
                assert(s@.take(i as int + 1) =~= s@.take(i as int) + seq![c]);
                assert(cur@ =~= old_cur + seq![c]);
                if old_pieces.len() == 0 {
                    assert(join_texts(vs1) == vs1[0]);
                    assert(join_texts(vs0) == vs0[0]);
                    assert(join_texts(vs1) =~= s@.take(i as int + 1));
                } else {
                    assert(vs1.drop_last() =~= vs0.drop_last());
                    assert(vs1.last() == cur@);
                    assert(vs0.last() == old_cur);
                    assert(join_texts(vs1) == join_texts(vs1.drop_last()) + seq![' '] + cur@);
                    assert(join_texts(vs0) == join_texts(vs0.drop_last()) + seq![' '] + old_cur);
                    assert(join_texts(vs1) =~= join_texts(vs0) + seq![c]);
                    assert(join_texts(vs1) =~= s@.take(i as int + 1));
                }
            }
        }
        i = i + 1;
    }
    let ghost final_cur = cur@;
    let ghost pre = pieces@;
    pieces.push(cur);
    proof {
        assert(views_of(pieces@) =~= views_of(pre).push(final_cur));
        assert(s@.take(n as int) =~= s@);
    }
    pieces
}

/// The two texts joined by one slash.
pub open spec fn path_joined(dir: Seq<char>, name: Seq<char>) -> Seq<char> {
    dir + seq!['/'] + name
}

/// Joins a directory and a file or directory name with a slash.
pub fn path_join(dir: &str, name: &str) -> (r: String)
    ensures
        r@ == path_joined(dir@, name@),
{
    let mut out = String::from_str(dir);
    push_char(&mut out, '/');
    out.append(name);
    proof {
        assert(out@ =~= path_joined(dir@, name@));
    }
    out
}

} // verus!
