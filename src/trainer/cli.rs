use vstd::prelude::*;

use crate::db::person::Person;

verus! {

/// Two person records with the same row id, identifier and name.
pub open spec fn same_person(a: Person, b: Person) -> bool {
    a.id == b.id && a.uuid@ == b.uuid@ && a.name@ == b.name@
}

pub open spec fn has_person(list: Seq<Person>, p: Person) -> bool {
    exists|k: int| 0 <= k < list.len() && same_person(#[trigger] list[k], p)
}

/// The persons of a candidate list, each once, in the order first met.
pub open spec fn distinct_people(matches: Seq<(Option<Person>, u64)>) -> Seq<Person>
    decreases matches.len(),
{
    if matches.len() == 0 {
        Seq::empty()
    } else {
        let rest = distinct_people(matches.drop_last());
        match matches.last().0 {
            Some(p) => if has_person(rest, p) {
                rest
            } else {
                rest.push(p)
            },
            None => rest,
        }
    }
}

/// Unicode `White_Space`, as `char::is_whitespace` has it.
pub open spec fn is_white_space(c: char) -> bool {
    ||| c == '\t' || c == '\n' || c == '\u{0B}' || c == '\u{0C}' || c == '\r' || c == ' '
    ||| c == '\u{85}' || c == '\u{A0}' || c == '\u{1680}'
    ||| ('\u{2000}' <= c && c <= '\u{200A}')
    ||| c == '\u{2028}' || c == '\u{2029}' || c == '\u{202F}' || c == '\u{205F}' || c == '\u{3000}'
}

/// `s` without its leading and trailing white space.
pub open spec fn trim(s: Seq<char>) -> Seq<char>
    decreases s.len(),
{
    if s.len() == 0 {
        s
    } else if is_white_space(s[0]) {
        trim(s.drop_first())
    } else if is_white_space(s.last()) {
        trim(s.drop_last())
    } else {
        s
    }
}

pub open spec fn is_digit(c: char) -> bool {
    '0' <= c && c <= '9'
}

/// The number that a string of decimal digits writes.
pub open spec fn digits_value(s: Seq<char>) -> int
    decreases s.len(),
{
    if s.len() == 0 {
        0
    } else {
        digits_value(s.drop_last()) * 10 + (s.last() as int - '0' as int)
    }
}

/// The digits of an answer: its trimmed text without a leading `+`.
pub open spec fn index_digits(answer: Seq<char>) -> Seq<char> {
    let t = trim(answer);
    if t.len() > 0 && t[0] == '+' {
        t.drop_first()
    } else {
        t
    }
}

/// The option number an answer gives, read as `usize` is read from text:
/// after trimming, an optional `+` and one or more decimal digits, whose
/// value fits.
pub open spec fn answer_index(answer: Seq<char>) -> Option<usize> {
    let d = index_digits(answer);
    if d.len() > 0 && (forall|i: int| 0 <= i < d.len() ==> is_digit(#[trigger] d[i]))
        && digits_value(d) <= usize::MAX {
        Some(digits_value(d) as usize)
    } else {
        None
    }
}

/// The operator's answer to a moderation prompt, resolved.
#[derive(Clone, Debug)]
pub enum Choice {
    /// One of the offered persons, by identifier.
    Existing(String),
    /// A new person with this name.
    NewPerson(String),
}

#[derive(Clone, Copy, Debug, PartialEq, Eq, Structural)]
pub enum AnswerError {
    /// The answer is a number, but no option has it.
    NoSuchOption(usize),
    /// The answer is neither a number nor a name.
    EmptyName,
}

/// `s` with every line break removed.
pub open spec fn without_newlines(s: Seq<char>) -> Seq<char> {
    s.filter(|c: char| c != '\n')
}

/// Relies on `str::replace`: every `'\n'` of `s` removed, the rest kept in
/// order.
#[verifier::external_body]
fn remove_newlines(s: &str) -> (r: String)
    ensures
        r@ == without_newlines(s@),
{
    s.replace('\n', "")
}

fn white_space(c: char) -> (r: bool)
    ensures
        r == is_white_space(c),
{
    c == '\t' || c == '\n' || c == '\u{0B}' || c == '\u{0C}' || c == '\r' || c == ' ' || c
        == '\u{85}' || c == '\u{A0}' || c == '\u{1680}' || ('\u{2000}' <= c && c <= '\u{200A}')
        || c == '\u{2028}' || c == '\u{2029}' || c == '\u{202F}' || c == '\u{205F}' || c
        == '\u{3000}'
}

proof fn lemma_trim_leading(s: Seq<char>, a: int)
    requires
        0 <= a <= s.len(),
        forall|k: int| 0 <= k < a ==> is_white_space(#[trigger] s[k]),
    ensures
        trim(s) == trim(s.subrange(a, s.len() as int)),
    decreases a,
{
    if a > 0 {
        let t = s.drop_first();
        assert forall|k: int| 0 <= k < a - 1 implies is_white_space(#[trigger] t[k]) by {
            assert(t[k] == s[k + 1]);
        }
        lemma_trim_leading(t, a - 1);
        assert(t.subrange(a - 1, t.len() as int) =~= s.subrange(a, s.len() as int));
    } else {
        assert(s.subrange(0, s.len() as int) =~= s);
    }
}

proof fn lemma_trim_trailing(s: Seq<char>, b: int)
    requires
        0 <= b <= s.len(),
        b > 0 ==> !is_white_space(s[0]),
        b == 0 ==> s.len() == 0 || forall|k: int| 0 <= k < s.len() ==> is_white_space(#[trigger] s[k]),
        forall|k: int| b <= k < s.len() ==> is_white_space(#[trigger] s[k]),
        b > 0 ==> !is_white_space(s[b - 1]),
    ensures
        trim(s) == s.subrange(0, b),
    decreases s.len(),
{
    if s.len() == 0 {
        assert(s.subrange(0, b) =~= s);
    } else if b == 0 {
        let t = s.drop_first();
        assert forall|k: int| 0 <= k < t.len() implies is_white_space(#[trigger] t[k]) by {
            assert(t[k] == s[k + 1]);
        }
        lemma_trim_trailing(t, 0);
        assert(s.subrange(0, 0) =~= t.subrange(0, 0));
    } else if b < s.len() {
        let t = s.drop_last();
        assert(is_white_space(s[s.len() - 1]));
        lemma_trim_trailing(t, b);
        assert(t.subrange(0, b) =~= s.subrange(0, b));
    } else {
        assert(s.subrange(0, b) =~= s);
    }
}

proof fn lemma_digits_prefix(s: Seq<char>, k: int)
    requires
        0 <= k <= s.len(),
        forall|i: int| 0 <= i < s.len() ==> is_digit(#[trigger] s[i]),
    ensures
        digits_value(s) >= digits_value(s.take(k)),
        digits_value(s) >= 0,
    decreases s.len(),
{
    if s.len() > 0 {
        let t = s.drop_last();
        if k < s.len() {
            lemma_digits_prefix(t, k);
            assert(t.take(k) =~= s.take(k));
        } else {
            lemma_digits_prefix(t, 0);
            assert(s.take(k) =~= s);
        }
        assert(is_digit(s[s.len() - 1]));
    } else {
        assert(s.take(k) =~= s);
    }
}

/// Reads the option number from an answer, as `answer.trim().parse::<usize>()`
/// does.
pub fn parse_index(answer: &str) -> (r: Option<usize>)
    ensures
        r == answer_index(answer@),
{
    let n = answer.unicode_len();
    let mut a: usize = 0;
    while a < n && white_space(answer.get_char(a))
        invariant
            0 <= a <= n,
            n == answer@.len(),
            forall|k: int| 0 <= k < a ==> is_white_space(#[trigger] answer@[k]),
        decreases n - a,
    {
        a = a + 1;
    }
    let mut b: usize = n;
    while b > a && white_space(answer.get_char(b - 1))
        invariant
            a <= b <= n,
            n == answer@.len(),
            forall|k: int| b <= k < n ==> is_white_space(#[trigger] answer@[k]),
        decreases b - a,
    {
        b = b - 1;
    }
    let ghost t = answer@.subrange(a as int, n as int);
    proof {
        lemma_trim_leading(answer@, a as int);
        assert forall|k: int| (b - a) <= k < t.len() implies is_white_space(#[trigger] t[k]) by {
            assert(t[k] == answer@[a + k]);
        }
        if b > a {
            assert(t[0] == answer@[a as int]);
            assert(t[b - a - 1] == answer@[b - 1]);
        } else {
            assert forall|k: int| 0 <= k < t.len() implies is_white_space(#[trigger] t[k]) by {
                assert(t[k] == answer@[a + k]);
            }
        }
        lemma_trim_trailing(t, b - a);
    }
    let ghost trimmed = answer@.subrange(a as int, b as int);
    assert(trim(answer@) =~= trimmed);
    let mut start = a;
    if a < b && answer.get_char(a) == '+' {
        start = a + 1;
    }
    let ghost d = answer@.subrange(start as int, b as int);
    assert(d =~= (if trimmed.len() > 0 && trimmed[0] == '+' {
        trimmed.drop_first()
    } else {
        trimmed
    }));
    if start >= b {
        assert(d.len() == 0);
        return None;
    }
    let mut value: usize = 0;
    let mut i: usize = start;
    while i < b
        invariant
            start <= i <= b <= n,
            n == answer@.len(),
            d == answer@.subrange(start as int, b as int),
            d == index_digits(answer@),
            forall|k: int| 0 <= k < i - start ==> is_digit(#[trigger] d[k]),
            value == digits_value(d.take(i - start)),
        decreases b - i,
    {
        let c = answer.get_char(i);
        assert(c == d[i - start]);
        if !('0' <= c && c <= '9') {
            assert(!is_digit(d[i - start]));
            return None;
        }
        assert(d.take(i - start + 1).drop_last() =~= d.take(i - start));
        let digit = (c as u32 - '0' as u32) as usize;
        match value.checked_mul(10) {
            None => {
                proof {
                    lemma_overflow(d, i - start + 1);
                }
                return None;
            },
            Some(m) => match m.checked_add(digit) {
                None => {
                    proof {
                        lemma_overflow(d, i - start + 1);
                    }
                    return None;
                },
                Some(v) => {
                    value = v;
                },
            },
        }
        i = i + 1;
    }
    assert(d.take(i - start) =~= d);
    Some(value)
}

/// Once a prefix of digits is too large, so is every longer string of
/// digits.
proof fn lemma_overflow(d: Seq<char>, k: int)
    requires
        0 < k <= d.len(),
        forall|i: int| 0 <= i < k ==> is_digit(#[trigger] d[i]),
        digits_value(d.take(k)) > usize::MAX,
    ensures
        !(forall|i: int| 0 <= i < d.len() ==> is_digit(#[trigger] d[i])) || digits_value(d)
            > usize::MAX,
{
    if forall|i: int| 0 <= i < d.len() ==> is_digit(#[trigger] d[i]) {
        lemma_digits_prefix(d, k);
    }
}

/// The persons to offer for a face: those of its candidate list, each once,
/// in candidate order.
pub fn person_options(matches: &Vec<(Option<Person>, u64)>) -> (r: Vec<Person>)
    ensures
        r@ == distinct_people(matches@),
{
    let mut options: Vec<Person> = Vec::new();
    let mut i: usize = 0;
    while i < matches.len()
        invariant
            0 <= i <= matches@.len(),
            options@ == distinct_people(matches@.take(i as int)),
        decreases matches@.len() - i,
    {
        assert(matches@.take(i + 1).drop_last() =~= matches@.take(i as int));
        match &matches[i].0 {
            Some(person) => {
                let mut k: usize = 0;
                let mut seen = false;
                while k < options.len()
                    invariant
                        0 <= k <= options@.len(),
                        seen == exists|j: int| 0 <= j < k && same_person(#[trigger] options@[j], *person),
                    decreases options@.len() - k,
                {
                    if options[k].id == person.id && options[k].uuid == person.uuid
                        && options[k].name == person.name {
                        seen = true;
                    }
                    k = k + 1;
                }
                if !seen {
                    options.push(person.duplicate());
                }
            },
            None => {},
        }
        i = i + 1;
    }
    assert(matches@.take(i as int) =~= matches@);
    options
}

/// Resolves the operator's answer against the offered persons: a number
/// picks that option; any other answer, with its line breaks removed, names
/// a new person and must not be empty.
pub fn interpret_answer(options: &Vec<Person>, answer: &String) -> (r: Result<Choice, AnswerError>)
    ensures
        match answer_index(answer@) {
            Some(n) => if n < options@.len() {
                r matches Ok(Choice::Existing(u)) && u == options@[n as int].uuid
            } else {
                r == Err::<Choice, AnswerError>(AnswerError::NoSuchOption(n))
            },
            None => {
                let name = without_newlines(answer@);
                if name.len() == 0 {
                    r == Err::<Choice, AnswerError>(AnswerError::EmptyName)
                } else {
                    r matches Ok(Choice::NewPerson(s)) && s@ == name
                }
            },
        },
{
    match parse_index(answer.as_str()) {
        Some(n) => if n < options.len() {
            Ok(Choice::Existing(options[n].uuid.clone()))
        } else {
            Err(AnswerError::NoSuchOption(n))
        },
        None => {
            let name = remove_newlines(answer.as_str());
            if name.as_str().unicode_len() == 0 {
                Err(AnswerError::EmptyName)
            } else {
                Ok(Choice::NewPerson(name))
            }
        },
    }
}

} // verus!
