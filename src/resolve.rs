//! Sorting the loosely ordered arguments into source base, source number and
//! target bases.
use vstd::prelude::*;

use crate::error::ErrorCode;
use crate::text::push_char;

verus! {

/// The options of one run.
#[derive(Debug)]
pub struct Opt {
    /// Width to pad the output to (accepted, does not change the output).
    pub pad: u8,
    /// Put a separator every this many digits (0: none).
    pub sep_length: u32,
    /// The separator character.
    pub sep_char: char,
    /// Do not put separators in the output.
    pub no_sep: bool,
    /// Source base, used when no mnemonic gives one.
    pub from_base: u32,
    /// Print nothing.
    pub silent: bool,
    /// Copy the output to the clipboard.
    pub copy: bool,
    /// Take the source number from the clipboard.
    pub from_clipboard: bool,
    /// Leave out the `Base NN:` label.
    pub bare: bool,
    /// How much diagnostic output to print.
    pub verbosity: u8,
    /// The mnemonic of the source base (`b`, `o`, `d`, `h` or `x`), or whatever
    /// stood in its place.
    pub from_base_char: Option<String>,
    /// The number to convert, or whatever stood in its place.
    pub from_num: Option<String>,
    /// The bases to convert to, as decimal numerals.
    pub to_bases: Vec<String>,
}

/// The characters of an optional string.
pub open spec fn option_view(o: Option<String>) -> Option<Seq<char>> {
    match o {
        Some(s) => Some(s@),
        None => None,
    }
}

/// The characters of each string of a list.
pub open spec fn strings_view(v: Seq<String>) -> Seq<Seq<char>> {
    v.map_values(|s: String| s@)
}

/// The base a mnemonic stands for: `b` 2, `o` 8, `d` 10, `h` or `x` 16.
pub open spec fn mnemonic_base(s: Seq<char>) -> Option<u32> {
    if s == seq!['b'] {
        Some(2)
    } else if s == seq!['o'] {
        Some(8)
    } else if s == seq!['d'] {
        Some(10)
    } else if s == seq!['h'] || s == seq!['x'] {
        Some(16)
    } else {
        None
    }
}

/// `item` put in front of `list` when there is one.
pub open spec fn prepend_some(item: Option<Seq<char>>, list: Seq<Seq<char>>) -> Seq<Seq<char>> {
    match item {
        Some(x) => seq![x] + list,
        None => list,
    }
}

/// How the options resolve, given what the clipboard holds and the target
/// bases so far: the source base, the source number, and the target bases.
pub open spec fn resolution(opt: Opt, clipboard: Option<Seq<char>>, targets: Seq<Seq<char>>) -> (
    u32,
    Option<Seq<char>>,
    Seq<Seq<char>>,
) {
    let token = match opt.from_base_char {
        Some(s) => s@,
        None => Seq::empty(),
    };
    let literal = option_view(opt.from_num);
    match mnemonic_base(token) {
        Some(b) => if opt.from_clipboard {
            (b, clipboard, prepend_some(literal, targets))
        } else {
            (b, literal, targets)
        },
        None => {
            let shifted = prepend_some(literal, targets);
            if !opt.from_clipboard {
                (opt.from_base, Some(token), shifted)
            } else if token.len() > 0 {
                (opt.from_base, clipboard, seq![token] + shifted)
            } else {
                (opt.from_base, clipboard, shifted)
            }
        },
    }
}

/// The target bases used when none are given.
pub open spec fn default_targets() -> Seq<Seq<char>> {
    seq![seq!['2'], seq!['8'], seq!['1', '0'], seq!['1', '6']]
}

/// The target bases to convert to: those given, or the defaults when none are.
pub open spec fn final_targets(targets: Seq<Seq<char>>) -> Seq<Seq<char>> {
    if targets.len() == 0 {
        default_targets()
    } else {
        targets
    }
}

/// The base that the mnemonic `from_base` stands for, or `None` when it is no
/// mnemonic (which includes the empty text).
pub fn get_from_base(from_base: &str) -> (r: Option<u32>)
    ensures
        r == mnemonic_base(from_base@),
{
    if from_base.unicode_len() != 1 {
        return None;
    }
    let c = from_base.get_char(0);
    assert(from_base@ =~= seq![c]);
    if c == 'b' {
        Some(2)
    } else if c == 'o' {
        Some(8)
    } else if c == 'd' {
        Some(10)
    } else if c == 'h' || c == 'x' {
        Some(16)
    } else {
        None
    }
}

/// A copy of an optional string.
fn clone_option(o: &Option<String>) -> (r: Option<String>)
    ensures
        option_view(r) == option_view(*o),
{
    match o {
        Some(s) => Some(s.clone()),
        None => None,
    }
}

/// Puts `s` in front of `list`.
fn prepend(list: &mut Vec<String>, s: String)
    ensures
        strings_view(final(list)@) == seq![s@] + strings_view(old(list)@),
{
    list.insert(0, s);
    assert(strings_view(final(list)@) =~= seq![s@] + strings_view(old(list)@));
}

/// Decides the source base and the source number, and shifts into the front
/// of `to_bases` the arguments that turned out to be target bases.
/// `clipboard` is what the clipboard held, where it was read.
pub fn get_bases(opt: &Opt, to_bases: &mut Vec<String>, clipboard: Option<String>) -> (r: Result<
    (u32, Option<String>),
    ErrorCode,
>)
    ensures
        r is Ok,
        r matches Ok((b, n)) && resolution(
            *opt,
            option_view(clipboard),
            strings_view(old(to_bases)@),
        ) == (b, option_view(n), strings_view(final(to_bases)@)),
{
    let token = match &opt.from_base_char {
        Some(s) => s.clone(),
        None => String::new(),
    };
    match get_from_base(token.as_str()) {
        Some(v) => {
            if opt.from_clipboard {
                if let Some(literal) = &opt.from_num {
                    prepend(to_bases, literal.clone());
                }
                Ok((v, clipboard))
            } else {
                Ok((v, clone_option(&opt.from_num)))
            }
        },
        None => {
            if let Some(literal) = &opt.from_num {
                prepend(to_bases, literal.clone());
            }
            if !opt.from_clipboard {
                Ok((opt.from_base, Some(token)))
            } else {
                if token.unicode_len() > 0 {
                    prepend(to_bases, token);
                }
                Ok((opt.from_base, clipboard))
            }
        },
    }
}

/// A copy of a list of strings.
fn clone_strings(v: &Vec<String>) -> (r: Vec<String>)
    ensures
        strings_view(r@) == strings_view(v@),
{
    let mut r: Vec<String> = Vec::new();
    let mut i: usize = 0;
    while i < v.len()
        invariant
            i <= v.len(),
            r@.len() == i,
            forall|j: int| 0 <= j < i ==> #[trigger] r@[j]@ == v@[j]@,
        decreases v.len() - i,
    {
        r.push(v[i].clone());
        i = i + 1;
    }
    assert(strings_view(r@) =~= strings_view(v@));
    r
}

/// The string of the numeral `d` or, when `e` is given, `d` then `e`.
fn numeral_string(d: char, e: Option<char>) -> (r: String)
    ensures
        r@ == match e {
            Some(x) => seq![d, x],
            None => seq![d],
        },
{
    let mut r = String::new();
    push_char(&mut r, d);
    if let Some(x) = e {
        push_char(&mut r, x);
    }
    assert(r@ =~= match e {
        Some(x) => seq![d, x],
        None => seq![d],
    });
    r
}

/// The target bases used when none are given: 2, 8, 10 and 16.
pub fn default_bases() -> (r: Vec<String>)
    ensures
        strings_view(r@) == default_targets(),
{
    let mut r: Vec<String> = Vec::new();
    r.push(numeral_string('2', None));
    r.push(numeral_string('8', None));
    r.push(numeral_string('1', Some('0')));
    r.push(numeral_string('1', Some('6')));
    assert(strings_view(r@) =~= default_targets());
    r
}

/// Resolves the options of a run: the source base, the source number and the
/// target bases, which are the defaults when none remain.
/// `clipboard` is what the clipboard held, where it was read.
pub fn resolve(opt: &Opt, clipboard: Option<String>) -> (r: (u32, Option<String>, Vec<String>))
    ensures
        ({
            let (b, n, t) = resolution(*opt, option_view(clipboard), strings_view(opt.to_bases@));
            &&& r.0 == b
            &&& option_view(r.1) == n
            &&& strings_view(r.2@) == final_targets(t)
        }),
{
    let mut to_bases = clone_strings(&opt.to_bases);
    let (b, n) = get_bases(opt, &mut to_bases, clipboard).unwrap();
    if to_bases.len() == 0 {
        to_bases = default_bases();
    }
    (b, n, to_bases)
}

} // verus!
