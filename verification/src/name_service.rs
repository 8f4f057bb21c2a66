//! Name-service domains.
//!
//! A domain is a non-empty sequence of labels ending in the `sui` top-level
//! label. Two written forms are accepted: dot-separated (`name.sui`) and
//! at-separated (`name@sui`), the latter optionally starting with a bare `@`.
//! A missing top-level label is supplied: any spelling that does not already
//! end in `sui` with at least two labels gains a final `sui`. Labels hold
//! lower-case letters, digits and inner hyphens.

use vstd::prelude::*;

verus! {

/// The one way a written domain is rejected: a label is empty, holds a
/// character outside the allowed set, or starts or ends with a hyphen.
#[derive(Debug, Clone, Copy, PartialEq, Eq, Structural)]
pub enum NameServiceError {
    InvalidLabel,
}

pub open spec fn is_label_char(c: char) -> bool {
    ('a' <= c && c <= 'z') || ('0' <= c && c <= '9') || c == '-'
}

/// A label is non-empty, made of allowed characters, and hyphens only inside.
pub open spec fn valid_label(l: Seq<char>) -> bool {
    l.len() > 0 && (forall|i: int| 0 <= i < l.len() ==> is_label_char(#[trigger] l[i])) && l[0]
        != '-' && l[l.len() - 1] != '-'
}

/// The position of the first occurrence of `sep`, or -1 when it is absent.
pub open spec fn first_index_of(s: Seq<char>, sep: char) -> int
    decreases s.len(),
{
    if s.len() == 0 {
        -1
    } else if s.first() == sep {
        0
    } else {
        let r = first_index_of(s.drop_first(), sep);
        if r == -1 {
            -1
        } else {
            r + 1
        }
    }
}

/// The segments of `s` between occurrences of `sep`; always at least one
/// segment, and empty segments are kept.
pub open spec fn split_chars(s: Seq<char>, sep: char) -> Seq<Seq<char>>
    decreases s.len(),
{
    let i = first_index_of(s, sep);
    if 0 <= i < s.len() {
        seq![s.take(i)] + split_chars(s.skip(i + 1), sep)
    } else {
        seq![s]
    }
}

/// The separator a written domain uses: `@` when present, else `.`.
pub open spec fn domain_separator(s: Seq<char>) -> char {
    if s.contains('@') {
        '@'
    } else {
        '.'
    }
}

/// The written labels: the string split on its separator, with a leading
/// bare `@` allowed in the at-form.
pub open spec fn raw_labels(s: Seq<char>) -> Seq<Seq<char>> {
    let parts = split_chars(s, domain_separator(s));
    if domain_separator(s) == '@' && parts.len() > 0 && parts[0].len() == 0 {
        parts.drop_first()
    } else {
        parts
    }
}

/// The parsed labels, or nothing when a label is invalid. A spelling that
/// does not already end in the `sui` top-level label with at least two
/// labels gains a final `sui`.
pub open spec fn parsed_labels(s: Seq<char>) -> Option<Seq<Seq<char>>> {
    let ls = raw_labels(s);
    if ls.len() == 0 || (exists|i: int| 0 <= i < ls.len() && !valid_label(#[trigger] ls[i])) {
        None
    } else if ls.len() < 2 || ls[ls.len() - 1] != "sui"@ {
        Some(ls.push("sui"@))
    } else {
        Some(ls)
    }
}

/// The labels joined with dots: the canonical written form.
pub open spec fn join_dots(labels: Seq<Seq<char>>) -> Seq<char>
    decreases labels.len(),
{
    if labels.len() == 0 {
        Seq::empty()
    } else if labels.len() == 1 {
        labels[0]
    } else {
        join_dots(labels.drop_last()) + seq!['.'] + labels.last()
    }
}

proof fn lemma_first_index_is(s: Seq<char>, sep: char, m: int)
    requires
        0 <= m < s.len(),
        s[m] == sep,
        forall|j: int| 0 <= j < m ==> s[j] != sep,
    ensures
        first_index_of(s, sep) == m,
    decreases m,
{
    if m == 0 {
        assert(s.first() == sep);
    } else {
        assert(s.first() != sep);
        let df = s.drop_first();
        assert(forall|j: int| 0 <= j < df.len() ==> #[trigger] df[j] == s[j + 1]);
        lemma_first_index_is(df, sep, m - 1);
    }
}

proof fn lemma_first_index_none(s: Seq<char>, sep: char)
    requires
        forall|j: int| 0 <= j < s.len() ==> s[j] != sep,
    ensures
        first_index_of(s, sep) == -1,
    decreases s.len(),
{
    if s.len() > 0 {
        let df = s.drop_first();
        assert(forall|j: int| 0 <= j < df.len() ==> #[trigger] df[j] == s[j + 1]);
        lemma_first_index_none(df, sep);
    }
}

fn contains_char(s: &str, c: char) -> (r: bool)
    ensures
        r == s@.contains(c),
{
    let n = s.unicode_len();
    let mut i: usize = 0;
    while i < n
        invariant
            i <= n,
            n == s@.len(),
            forall|j: int| 0 <= j < i ==> s@[j] != c,
        decreases n - i,
    {
        if s.get_char(i) == c {
            return true;
        }
        i = i + 1;
    }
    proof {
        if s@.contains(c) {
            let j = choose|j: int| 0 <= j < s@.len() && s@[j] == c;
            assert(s@[j] != c);
        }
    }
    false
}

fn split_str(s: &str, sep: char) -> (parts: Vec<String>)
    ensures
        parts.deep_view() == split_chars(s@, sep),
{
    let n = s.unicode_len();
    let mut parts: Vec<String> = Vec::new();
    proof {
        assert(s@.skip(0) =~= s@);
        assert(parts.deep_view() =~= Seq::<Seq<char>>::empty());
        assert(Seq::<Seq<char>>::empty() + split_chars(s@, sep) =~= split_chars(s@, sep));
    }
    let mut start: usize = 0;
    let mut i: usize = 0;
    while i < n
        invariant
            start <= i && i <= n,
            n == s@.len(),
            split_chars(s@, sep) == parts.deep_view() + split_chars(s@.skip(start as int), sep),
            forall|j: int| start <= j < i ==> s@[j] != sep,
        decreases n - i,
    {
        let c = s.get_char(i);
        if c == sep {
            let label = s.substring_char(start, i);
            let owned = String::from_str(label);
            let ghost before = parts.deep_view();
            parts.push(owned);
            proof {
                let rest = s@.skip(start as int);
                assert(forall|j: int| 0 <= j < rest.len() ==> #[trigger] rest[j] == s@[start + j]);
                lemma_first_index_is(rest, sep, i - start);
                assert(split_chars(rest, sep) == seq![rest.take(i - start)] + split_chars(
                    rest.skip(i - start + 1),
                    sep,
                ));
                assert(rest.take(i - start) =~= s@.subrange(start as int, i as int));
                assert(rest.skip(i - start + 1) =~= s@.skip(i + 1));
                assert(owned@ == s@.subrange(start as int, i as int));
                assert(parts.deep_view() =~= before.push(owned@));
                assert(before.push(owned@) + split_chars(s@.skip(i + 1), sep) =~= before + (seq![
                    owned@,
                ] + split_chars(s@.skip(i + 1), sep)));
            }
            start = i + 1;
        }
        i = i + 1;
    }
    let label = s.substring_char(start, n);
    let owned = String::from_str(label);
    let ghost before = parts.deep_view();
    parts.push(owned);
    proof {
        let rest = s@.skip(start as int);
        assert(forall|j: int| 0 <= j < rest.len() ==> #[trigger] rest[j] == s@[start + j]);
        lemma_first_index_none(rest, sep);
        assert(split_chars(rest, sep) == seq![rest]);
        assert(rest =~= s@.subrange(start as int, n as int));
        assert(parts.deep_view() =~= before.push(owned@));
        assert(before.push(owned@) =~= before + seq![owned@]);
    }
    parts
}

fn is_label_char_exec(c: char) -> (r: bool)
    ensures
        r == is_label_char(c),
{
    ('a' <= c && c <= 'z') || ('0' <= c && c <= '9') || c == '-'
}

fn valid_label_exec(l: &str) -> (r: bool)
    ensures
        r == valid_label(l@),
{
    let n = l.unicode_len();
    if n == 0 {
        return false;
    }
    if l.get_char(0) == '-' || l.get_char(n - 1) == '-' {
        return false;
    }
    let mut i: usize = 0;
    while i < n
        invariant
            i <= n,
            n == l@.len(),
            forall|j: int| 0 <= j < i ==> is_label_char(#[trigger] l@[j]),
        decreases n - i,
    {
        if !is_label_char_exec(l.get_char(i)) {
            return false;
        }
        i = i + 1;
    }
    true
}

fn str_eq(a: &str, b: &str) -> (r: bool)
    ensures
        r == (a@ == b@),
{
    let na = a.unicode_len();
    let nb = b.unicode_len();
    if na != nb {
        proof {
            assert(a@ != b@);
        }
        return false;
    }
    let mut i: usize = 0;
    while i < na
        invariant
            i <= na,
            na == a@.len(),
            na == b@.len(),
            forall|j: int| 0 <= j < i ==> a@[j] == b@[j],
        decreases na - i,
    {
        if a.get_char(i) != b.get_char(i) {
            proof {
                assert(a@ != b@);
            }
            return false;
        }
        i = i + 1;
    }
    proof {
        assert(a@ =~= b@);
    }
    true
}

/// A parsed domain: its labels in written order, the top-level label last.
#[derive(Debug, Clone, PartialEq, Eq)]
pub struct Domain {
    pub labels: Vec<String>,
}

impl Domain {
    /// Parse a written domain in either form; the result's labels are the
    /// written labels, with the `sui` top-level label supplied where the
    /// spelling leaves it out.
    pub fn from_str(s: &str) -> (r: Result<Domain, NameServiceError>)
        ensures
            match parsed_labels(s@) {
                Some(ls) => r matches Ok(d) && d.labels.deep_view() == ls,
                None => r matches Err(e) && e == NameServiceError::InvalidLabel,
            },
    {
        let sep = if contains_char(s, '@') {
            '@'
        } else {
            '.'
        };
        proof {
            assert(sep == domain_separator(s@));
        }
        let mut labels = split_str(s, sep);

        if sep == '@' && labels.len() > 0 && labels[0].as_str().unicode_len() == 0 {
            let ghost before = labels.deep_view();
            let _first = labels.remove(0);
            proof {
                assert(labels.deep_view() =~= before.drop_first());
            }
        }
        proof {
            assert(labels.deep_view() == raw_labels(s@));
        }

        let mut i: usize = 0;
        while i < labels.len()
            invariant
                i <= labels@.len(),
                labels.deep_view() == raw_labels(s@),
                forall|j: int| 0 <= j < i ==> valid_label(#[trigger] labels.deep_view()[j]),
            decreases labels@.len() - i,
        {
            if !valid_label_exec(labels[i].as_str()) {
                proof {
                    assert(labels.deep_view()[i as int] == labels@[i as int]@);
                    assert(!valid_label(raw_labels(s@)[i as int]));
                }
                return Err(NameServiceError::InvalidLabel);
            }
            i = i + 1;
        }
        if labels.len() == 0 {
            return Err(NameServiceError::InvalidLabel);
        }

        let needs_tld = labels.len() < 2 || !str_eq(labels[labels.len() - 1].as_str(), "sui");
        if needs_tld {
            let ghost before = labels.deep_view();
            let tld = String::from_str("sui");
            labels.push(tld);
            proof {
                assert(labels.deep_view() =~= before.push("sui"@));
            }
        }
        Ok(Domain { labels })
    }

    /// The canonical written form: the labels joined with dots.
    pub fn to_string(&self) -> (r: String)
        ensures
            r@ == join_dots(self.labels.deep_view()),
    {
        let ghost all = self.labels.deep_view();
        let mut out = String::new();
        let mut i: usize = 0;
        while i < self.labels.len()
            invariant
                i <= all.len(),
                all == self.labels.deep_view(),
                all.len() == self.labels@.len(),
                out@ == join_dots(all.take(i as int)),
            decreases all.len() - i,
        {
            proof {
                assert(all.take(i + 1).drop_last() =~= all.take(i as int));
                assert(all.take(i + 1).last() == all[i as int]);
                reveal_strlit(".");
                assert("."@ =~= seq!['.']);
            }
            if i > 0 {
                out.append(".");
            }
            out.append(self.labels[i].as_str());
            proof {
                if i == 0 {
                    assert(all.take(1) =~= seq![all[0]]);
                    assert(out@ =~= all[0]);
                } else {
                    assert(out@ =~= join_dots(all.take(i as int)) + seq!['.'] + all[i as int]);
                }
            }
            i = i + 1;
        }
        proof {
            assert(all.take(all.len() as int) =~= all);
        }
        out
    }
}

} // verus!
