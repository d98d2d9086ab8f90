use vstd::prelude::*;
use vstd::string::*;
use crate::model::texts;

verus! {

/// A character with the Unicode property White_Space.
pub open spec fn is_white_space(c: char) -> bool {
    let u = c as u32;
    (0x9 <= u <= 0xD) || u == 0x20 || u == 0x85 || u == 0xA0 || u == 0x1680 || (0x2000 <= u <= 0x200A)
        || u == 0x2028 || u == 0x2029 || u == 0x202F || u == 0x205F || u == 0x3000
}

/// The text without its leading whitespace.
pub open spec fn trim_start(s: Seq<char>) -> Seq<char>
    decreases s.len(),
{
    if s.len() > 0 && is_white_space(s[0]) {
        trim_start(s.drop_first())
    } else {
        s
    }
}

/// The text without its trailing whitespace.
pub open spec fn trim_end(s: Seq<char>) -> Seq<char>
    decreases s.len(),
{
    if s.len() > 0 && is_white_space(s.last()) {
        trim_end(s.drop_last())
    } else {
        s
    }
}

/// The text without leading and trailing whitespace.
pub open spec fn trimmed(s: Seq<char>) -> Seq<char> {
    trim_end(trim_start(s))
}

/// Relies on `str::trim`: the text with leading and trailing whitespace
/// (the Unicode White_Space property) removed.
#[verifier::external_body]
fn trim(s: &str) -> (r: String)
    ensures
        r@ == trimmed(s@),
{
    s.trim().to_string()
}

/// The lines written one after another, as they stand.
pub open spec fn concat_lines(lines: Seq<Seq<char>>) -> Seq<char>
    decreases lines.len(),
{
    if lines.len() == 0 {
        Seq::empty()
    } else {
        concat_lines(lines.drop_last()) + lines.last()
    }
}

/// A documentation line without the single space that follows its marker.
pub open spec fn strip_marker_space(line: Seq<char>) -> Seq<char> {
    if line.len() > 0 && line[0] == ' ' {
        line.subrange(1, line.len() as int)
    } else {
        line
    }
}

/// The lines, each without its marker space, joined by line breaks.
pub open spec fn formatted_lines(lines: Seq<Seq<char>>) -> Seq<char>
    decreases lines.len(),
{
    if lines.len() == 0 {
        Seq::empty()
    } else if lines.len() == 1 {
        strip_marker_space(lines[0])
    } else {
        formatted_lines(lines.drop_last()) + "\n"@ + strip_marker_space(lines.last())
    }
}

/// The documentation text before trimming: literal with `verbatim`, formatted otherwise.
pub open spec fn doc_text_of(lines: Seq<Seq<char>>, verbatim: bool) -> Seq<char> {
    if verbatim {
        concat_lines(lines)
    } else {
        formatted_lines(lines)
    }
}

/// The prompt text of a field named `name`: the name itself when the field
/// carries no annotation at all (no directive, no documentation), else its
/// trimmed documentation text, which is empty when it has no documentation.
pub open spec fn prompt_text_of(name: Seq<char>, annotated: bool, lines: Seq<Seq<char>>, verbatim: bool) -> Seq<char> {
    if !annotated {
        name
    } else {
        trimmed(doc_text_of(lines, verbatim))
    }
}

fn strip_space(line: &String) -> (r: String)
    ensures
        r@ == strip_marker_space(line@),
{
    let s = line.as_str();
    let n = s.unicode_len();
    if n > 0 && s.get_char(0) == ' ' {
        String::from_str(s.substring_char(1, n))
    } else {
        line.clone()
    }
}

/// Joins documentation lines: one after another with `verbatim`; else each
/// without its marker space, separated by line breaks.
pub fn doc_text(lines: &Vec<String>, verbatim: bool) -> (r: String)
    ensures
        r@ == doc_text_of(texts(lines@), verbatim),
{
    let ghost ls = texts(lines@);
    let mut out = String::new();
    let mut i: usize = 0;
    proof {
        reveal_strlit("\n");
    }
    while i < lines.len()
        invariant
            i <= lines@.len(),
            ls == texts(lines@),
            out@ == doc_text_of(ls.take(i as int), verbatim),
        decreases lines@.len() - i,
    {
        assert(ls.take(i + 1).drop_last() =~= ls.take(i as int));
        if verbatim {
            out.append(lines[i].as_str());
        } else {
            let line = strip_space(&lines[i]);
            if i > 0 {
                out.append("\n");
            }
            out.append(line.as_str());
        }
        i = i + 1;
        proof {
            if !verbatim && i == 1 {
                assert(out@ =~= formatted_lines(ls.take(1)));
            }
            assert(out@ =~= doc_text_of(ls.take(i as int), verbatim));
        }
    }
    assert(ls.take(lines@.len() as int) =~= ls);
    out
}

/// The prompt text of a field: its name when it carries no annotation at
/// all, else its trimmed documentation text.
pub fn prompt_text(name: &String, annotated: bool, lines: &Vec<String>, verbatim: bool) -> (r: String)
    ensures
        r@ == prompt_text_of(name@, annotated, texts(lines@), verbatim),
        annotated && lines@.len() == 0 ==> r@.len() == 0,
{
    if !annotated {
        name.clone()
    } else {
        let joined = doc_text(lines, verbatim);
        trim(joined.as_str())
    }
}

/// Whether `pat` occurs in `s` at some position.
pub open spec fn occurs_in(pat: Seq<char>, s: Seq<char>) -> bool {
    exists|i: int| 0 <= i && i + pat.len() <= s.len() && #[trigger] s.subrange(i, i + pat.len()) == pat
}

/// Whether `pat` occurs in `s`.
pub fn contains_text(s: &str, pat: &str) -> (r: bool)
    ensures
        r == occurs_in(pat@, s@),
{
    let n = s.unicode_len();
    let m = pat.unicode_len();
    if m > n {
        return false;
    }
    let mut i: usize = 0;
    while i <= n - m
        invariant
            n == s@.len(),
            m == pat@.len(),
            m <= n,
            i <= n - m + 1,
            forall|k: int| 0 <= k < i ==> #[trigger] s@.subrange(k, k + m) != pat@,
        decreases n - m + 1 - i,
    {
        let mut j: usize = 0;
        let mut same = true;
        while j < m
            invariant
                n == s@.len(),
                m == pat@.len(),
                i + m <= n,
                j <= m,
                same == (forall|t: int| 0 <= t < j ==> s@[i + t] == pat@[t]),
            decreases m - j,
        {
            if s.get_char(i + j) != pat.get_char(j) {
                same = false;
            }
            j = j + 1;
        }
        if same {
            assert(s@.subrange(i as int, i + m) =~= pat@);
            return true;
        }
        assert(s@.subrange(i as int, i + m) != pat@) by {
            let t = choose|t: int| 0 <= t < m && s@[i + t] != pat@[t];
            assert(s@.subrange(i as int, i + m)[t] == s@[i + t]);
        }
        i = i + 1;
    }
    false
}

} // verus!
