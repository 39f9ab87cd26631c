//! Verbose messages: filling "{}" placeholders in a template, and the
//! "(k/N)", "(k-M/N)" and "(k-L/N)" counter prefixes. A logger hands back
//! the message it would show, or nothing when it is not verbose.
use vstd::prelude::*;
use crate::text::find;

verus! {

/// The decimal digits of `n`.
pub open spec fn decimal(n: nat) -> Seq<char>
    decreases n,
{
    if n < 10 {
        seq![digit(n)]
    } else {
        decimal(n / 10) + seq![digit(n % 10)]
    }
}

/// The character of a digit below ten.
pub open spec fn digit(d: nat) -> char {
    if d == 0 {
        '0'
    } else if d == 1 {
        '1'
    } else if d == 2 {
        '2'
    } else if d == 3 {
        '3'
    } else if d == 4 {
        '4'
    } else if d == 5 {
        '5'
    } else if d == 6 {
        '6'
    } else if d == 7 {
        '7'
    } else if d == 8 {
        '8'
    } else {
        '9'
    }
}

/// The placeholder that arguments fill.
pub open spec fn placeholder() -> Seq<char> {
    seq!['{', '}']
}

/// `s` with its first `pat` replaced by `rep`.
pub open spec fn replace_first(s: Seq<char>, pat: Seq<char>, rep: Seq<char>) -> Seq<char> {
    let i = find(s, pat);
    if i < 0 {
        s
    } else {
        s.take(i) + rep + s.skip(i + pat.len())
    }
}

/// The template with each argument, in turn, put in place of the first
/// placeholder left.
pub open spec fn fill(template: Seq<char>, args: Seq<Seq<char>>) -> Seq<char>
    decreases args.len(),
{
    if args.len() == 0 {
        template
    } else {
        replace_first(fill(template, args.drop_last()), placeholder(), args.last())
    }
}

/// The kind of file a counter counts.
pub enum CounterKind {
    Plain,
    Media,
    Lyrics,
}

/// "(k/N)", "(k-M/N)" or "(k-L/N)".
pub open spec fn counter_prefix(current: nat, total: nat, kind: CounterKind) -> Seq<char> {
    let tag = match kind {
        CounterKind::Plain => seq![],
        CounterKind::Media => seq!['-', 'M'],
        CounterKind::Lyrics => seq!['-', 'L'],
    };
    seq!['('] + decimal(current) + tag + seq!['/'] + decimal(total) + seq![')']
}

/// Appends the decimal digits of `n` to `out`.
pub fn push_decimal(out: &mut String, n: usize)
    ensures
        final(out)@ == old(out)@ + decimal(n as nat),
    decreases n,
{
    if n >= 10 {
        push_decimal(out, n / 10);
    }
    let d: usize = n % 10;
    let c = if d == 0 {
        '0'
    } else if d == 1 {
        '1'
    } else if d == 2 {
        '2'
    } else if d == 3 {
        '3'
    } else if d == 4 {
        '4'
    } else if d == 5 {
        '5'
    } else if d == 6 {
        '6'
    } else if d == 7 {
        '7'
    } else if d == 8 {
        '8'
    } else {
        '9'
    };
    crate::text::push_char(out, c);
    assert(c == digit((n % 10) as nat));
    if n < 10 {
        assert(n % 10 == n);
        assert(out@ =~= old(out)@ + decimal(n as nat));
    } else {
        assert(out@ =~= old(out)@ + decimal(n as nat));
    }
}

/// `text` with its first `pat` replaced by `rep`.
pub fn replace_first_text(text: &String, pat: &Vec<char>, rep: &str) -> (r: String)
    ensures
        r@ == replace_first(text@, pat@, rep@),
{
    let v = crate::text::chars_of(text.as_str());
    match crate::text::find_chars(&v, pat) {
        None => {
            let r = crate::text::string_of(&v, 0, v.len());
            assert(r@ =~= v@);
            r
        },
        Some(i) => {
            let mut r = crate::text::string_of(&v, 0, i);
            crate::text::push_str(&mut r, rep);
            crate::text::push_range(&mut r, &v, i + pat.len(), v.len());
            assert(r@ =~= v@.take(i as int) + rep@ + v@.skip(i + pat@.len()));
            r
        },
    }
}

/// The template with the arguments put in place of its placeholders.
pub fn fill_template(template: &str, args: &[&str]) -> (r: String)
    ensures
        r@ == fill(template@, args@.map_values(|a: &str| a@)),
{
    let ghost av = args@.map_values(|a: &str| a@);
    let pat = vec!['{', '}'];
    assert(pat@ =~= placeholder());
    let mut r = String::new();
    crate::text::push_str(&mut r, template);
    assert(r@ =~= template@);
    let mut i: usize = 0;
    while i < args.len()
        invariant
            i <= args.len(),
            av == args@.map_values(|a: &str| a@),
            pat@ == placeholder(),
            r@ == fill(template@, av.take(i as int)),
        decreases args.len() - i,
    {
        r = replace_first_text(&r, &pat, args[i]);
        proof {
            let t = av.take(i + 1);
            assert(t.drop_last() =~= av.take(i as int));
            assert(t.last() == args@[i as int]@);
        }
        i = i + 1;
    }
    assert(av.take(i as int) =~= av);
    r
}

/// A counter prefix.
pub fn format_counter(current: usize, total: usize, kind: &CounterKind) -> (r: String)
    ensures
        r@ == counter_prefix(current as nat, total as nat, *kind),
{
    let mut r = String::new();
    crate::text::push_char(&mut r, '(');
    push_decimal(&mut r, current);
    match kind {
        CounterKind::Plain => {},
        CounterKind::Media => {
            crate::text::push_char(&mut r, '-');
            crate::text::push_char(&mut r, 'M');
        },
        CounterKind::Lyrics => {
            crate::text::push_char(&mut r, '-');
            crate::text::push_char(&mut r, 'L');
        },
    }
    crate::text::push_char(&mut r, '/');
    push_decimal(&mut r, total);
    crate::text::push_char(&mut r, ')');
    assert(r@ =~= counter_prefix(current as nat, total as nat, *kind));
    r
}

/// Shows messages only when verbose.
#[derive(Debug)]
pub struct Logger {
    verbose: bool,
}

impl Logger {
    /// A logger that shows messages exactly when `verbose`.
    pub fn new(verbose: bool) -> (r: Self)
        ensures
            r.is_verbose() == verbose,
    {
        Logger { verbose }
    }

    /// Whether messages are shown.
    pub closed spec fn is_verbose(&self) -> bool {
        self.verbose
    }

    /// The message to show, if verbose.
    pub fn log(&self, message: &str) -> (r: Option<String>)
        ensures
            r is None <==> !self.is_verbose(),
            r matches Some(m) ==> m@ == message@,
    {
        if !self.verbose {
            return None;
        }
        let mut m = String::new();
        crate::text::push_str(&mut m, message);
        Some(m)
    }

    /// The template filled with the arguments, if verbose.
    pub fn log_formatted(&self, message_template: &str, args: &[&str]) -> (r: Option<String>)
        ensures
            r is None <==> !self.is_verbose(),
            r matches Some(m) ==> m@ == fill(message_template@, args@.map_values(|a: &str| a@)),
    {
        if !self.verbose {
            return None;
        }
        Some(fill_template(message_template, args))
    }

    /// The template filled with the arguments, if verbose, after a counter
    /// prefix and a space where both counts are given; `file_type` "media"
    /// and "lyrics" mark the counter with "-M" and "-L".
    pub fn log_with_counters(
        &self,
        message_template: &str,
        args: &[&str],
        current_count: Option<usize>,
        total_count: Option<usize>,
        file_type: Option<&str>,
    ) -> (r: Option<String>)
        ensures
            r is None <==> !self.is_verbose(),
            r matches Some(m) ==> {
                let body = fill(message_template@, args@.map_values(|a: &str| a@));
                m@ == match (current_count, total_count) {
                    (Some(c), Some(t)) => counter_prefix(
                        c as nat,
                        t as nat,
                        kind_of(
                            match file_type {
                                Some(f) => Some(f@),
                                None => None,
                            },
                        ),
                    ) + seq![' '] + body,
                    _ => body,
                }
            },
    {
        if !self.verbose {
            return None;
        }
        let body = fill_template(message_template, args);
        match (current_count, total_count) {
            (Some(c), Some(t)) => {
                let kind = counter_kind(file_type);
                let mut m = format_counter(c, t, &kind);
                crate::text::push_char(&mut m, ' ');
                crate::text::push_str(&mut m, body.as_str());
                Some(m)
            },
            _ => Some(body),
        }
    }
}

/// The counter kind that a file type names.
pub open spec fn kind_of(file_type: Option<Seq<char>>) -> CounterKind {
    match file_type {
        Some(f) => if f == "lyrics"@ {
            CounterKind::Lyrics
        } else if f == "media"@ {
            CounterKind::Media
        } else {
            CounterKind::Plain
        },
        None => CounterKind::Plain,
    }
}

/// Whether two texts are equal.
pub fn same_text(a: &str, b: &str) -> (r: bool)
    ensures
        r == (a@ == b@),
{
    let va = crate::text::chars_of(a);
    let vb = crate::text::chars_of(b);
    if va.len() != vb.len() {
        assert(va@.len() != vb@.len());
        return false;
    }
    let mut i: usize = 0;
    while i < va.len()
        invariant
            i <= va.len() == vb.len(),
            va@ == a@,
            vb@ == b@,
            forall|j: int| 0 <= j < i ==> va@[j] == vb@[j],
        decreases va.len() - i,
    {
        if va[i] != vb[i] {
            assert(va@[i as int] != vb@[i as int]);
            return false;
        }
        i = i + 1;
    }
    assert(va@ =~= vb@);
    true
}

/// The counter kind that a file type names.
pub fn counter_kind(file_type: Option<&str>) -> (r: CounterKind)
    ensures
        r == kind_of(
            match file_type {
                Some(f) => Some(f@),
                None => None,
            },
        ),
{
    match file_type {
        Some(f) => {
            if same_text(f, "lyrics") {
                CounterKind::Lyrics
            } else if same_text(f, "media") {
                CounterKind::Media
            } else {
                CounterKind::Plain
            }
        },
        None => CounterKind::Plain,
    }
}

} // verus!
