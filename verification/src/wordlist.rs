//! Named wordlists: ordered candidate values for each parameter name.
//!
//! The caller reads each file into its lines; this module turns those raw
//! lines into the value sequences the generator consumes. Blank-line policy
//! is explicit: a line is blank when it holds only ASCII whitespace, and the
//! caller chooses whether blank lines are kept as candidate values or
//! dropped.

use vstd::prelude::*;
use vstd::string::*;

verus! {

broadcast use Seq::<_>::lemma_filter_push;

/// The ASCII whitespace characters, as `str::trim` treats them within ASCII.
pub open spec fn is_ascii_space(c: char) -> bool {
    c == ' ' || c == '\t' || c == '\r' || c == '\n' || c == '\u{b}' || c == '\u{c}'
}

/// True when every character of the line is ASCII whitespace (so also for the
/// empty line); such lines carry no candidate value.
pub open spec fn is_blank_line(l: Seq<char>) -> bool {
    forall|i: int| 0 <= i < l.len() ==> is_ascii_space(l[i])
}

/// The lines that remain once blank lines are dropped, in their file order.
pub open spec fn non_blank(ls: Seq<Seq<char>>) -> Seq<Seq<char>> {
    ls.filter(|l: Seq<char>| !is_blank_line(l))
}

fn is_blank(line: &str) -> (b: bool)
    ensures
        b == is_blank_line(line@),
{
    let n = line.unicode_len();
    let mut i: usize = 0;
    while i < n
        invariant
            n == line@.len(),
            i <= n,
            forall|j: int| 0 <= j < i ==> is_ascii_space(line@[j]),
        decreases n - i,
    {
        let c = line.get_char(i);
        if !(c == ' ' || c == '\t' || c == '\r' || c == '\n' || c == '\u{b}' || c == '\u{c}') {
            return false;
        }
        i = i + 1;
    }
    true
}

/// Keeps, in order, exactly the lines that are not blank.
pub fn non_blank_values(lines: &Vec<String>) -> (r: Vec<String>)
    ensures
        r.deep_view() == non_blank(lines.deep_view()),
{
    let ghost pred = |l: Seq<char>| !is_blank_line(l);
    let mut r: Vec<String> = Vec::new();
    proof {
        reveal(Seq::<_>::filter);
        assert(r.deep_view() =~= lines.deep_view().take(0).filter(pred));
    }
    let n = lines.len();
    let mut i: usize = 0;
    while i < n
        invariant
            n == lines@.len(),
            i <= n,
            r.deep_view() == lines.deep_view().take(i as int).filter(pred),
            pred == (|l: Seq<char>| !is_blank_line(l)),
        decreases n - i,
    {
        let ghost prefix = lines.deep_view().take(i as int);
        if !is_blank(&lines[i]) {
            r.push(lines[i].clone());
        }
        proof {
            assert(lines.deep_view().take(i + 1) =~= prefix.push(lines@[i as int]@));
        }
        i = i + 1;
    }
    proof {
        assert(lines.deep_view().take(n as int) =~= lines.deep_view());
    }
    r
}

/// Copies a list of values; the copy holds the same character sequences.
fn clone_strings(v: &Vec<String>) -> (r: Vec<String>)
    ensures
        r@ == v@,
{
    let mut r: Vec<String> = Vec::new();
    let n = v.len();
    let mut i: usize = 0;
    while i < n
        invariant
            n == v@.len(),
            i <= n,
            r@ =~= v@.take(i as int),
        decreases n - i,
    {
        r.push(v[i].clone());
        i = i + 1;
    }
    proof {
        assert(r@ =~= v@);
    }
    r
}

/// The named wordlists, in the order they were supplied: each entry pairs a
/// parameter name with its ordered candidate values.
pub struct Wordlist {
    pub data: Vec<(String, Vec<String>)>,
}

impl Wordlist {
    /// An empty set of wordlists.
    pub fn new() -> (w: Wordlist)
        ensures
            w.data@.len() == 0,
    {
        Wordlist { data: Vec::new() }
    }

    /// Builds the wordlists from raw file lines, one entry per input file in
    /// input order. With `keep_blank` the lines are taken as they stand;
    /// without it blank lines are dropped, each remaining line one candidate
    /// value.
    pub fn from(raw: &Vec<(String, Vec<String>)>, keep_blank: bool) -> (w: Wordlist)
        ensures
            w.data@.len() == raw@.len(),
            forall|i: int| 0 <= i < raw@.len() ==> {
                &&& (#[trigger] w.data@[i]).0@ == raw@[i].0@
                &&& w.data@[i].1.deep_view() == if keep_blank {
                    raw@[i].1.deep_view()
                } else {
                    non_blank(raw@[i].1.deep_view())
                }
            },
    {
        let mut data: Vec<(String, Vec<String>)> = Vec::new();
        let n = raw.len();
        let mut i: usize = 0;
        while i < n
            invariant
                n == raw@.len(),
                i <= n,
                data@.len() == i,
                forall|j: int| 0 <= j < i ==> {
                    &&& (#[trigger] data@[j]).0@ == raw@[j].0@
                    &&& data@[j].1.deep_view() == if keep_blank {
                        raw@[j].1.deep_view()
                    } else {
                        non_blank(raw@[j].1.deep_view())
                    }
                },
            decreases n - i,
        {
            let name = raw[i].0.clone();
            let values = if keep_blank {
                clone_strings(&raw[i].1)
            } else {
                non_blank_values(&raw[i].1)
            };
            data.push((name, values));
            i = i + 1;
        }
        Wordlist { data }
    }
}

} // verus!
