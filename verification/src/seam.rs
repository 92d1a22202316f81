//! The deliberately small text ingestion seam: the minimal external
//! command spelling `gather actor=1 claim=1 site=1`,
//! `witness witness=3 claim=8` or
//! `give giver=1 to=2 kind=fodder g=500 witness=3` (`witness=-` for none).
//! The parser either names one closed failure or returns a command whose
//! canonical bytes are the boundary artifact; it never coerces input.

use vstd::prelude::*;

use crate::command::{Command, GatherCommand, GiveCommand, WitnessCommand};
use crate::keyed::{first_index_where, lemma_first_index_where, lemma_no_index_where};
use crate::text::{chars_equal, chars_of};
use crate::vocab::{kind_code, mass_from, CharacterId, ClaimId, MassGrams, ResourceKind, SiteId};

verus! {

/// Closed failures of the text seam.
#[derive(Debug, Clone, Copy, PartialEq, Eq, Structural)]
pub enum TextCommandFault {
    EmptyLine,
    NonAscii,
    NonCanonicalWhitespace,
    UnknownVerb,
    UnknownKind,
    WrongFieldCount,
    UnexpectedField,
    EmptyValue,
    NonCanonicalInteger,
    IntegerOutOfRange,
}

pub open spec fn is_ascii_chars(s: Seq<char>) -> bool {
    forall|i: int| 0 <= i < s.len() ==> #[trigger] s[i] < '\u{80}'
}

/// ASCII whitespace as `char::is_whitespace` sees it.
pub open spec fn is_white(c: char) -> bool {
    c == ' ' || c == '\t' || c == '\n' || c == '\x0B' || c == '\x0C' || c == '\r'
}

/// A line with leading or trailing whitespace, a doubled space, or a tab,
/// carriage return or line feed anywhere.
pub open spec fn noncanonical_whitespace(s: Seq<char>) -> bool {
    ||| is_white(s[0])
    ||| is_white(s.last())
    ||| exists|i: int| 0 <= i < s.len() - 1 && #[trigger] s[i] == ' ' && s[i + 1] == ' '
    ||| exists|i: int| 0 <= i < s.len() && (#[trigger] s[i] == '\t' || s[i] == '\r' || s[i] == '\n')
}

/// The pieces of `s` between occurrences of `sep`, in order (as
/// `str::split`).
pub open spec fn split_on(s: Seq<char>, sep: char) -> Seq<Seq<char>>
    decreases s.len(),
{
    if s.len() == 0 {
        seq![Seq::empty()]
    } else {
        let rest = split_on(s.drop_last(), sep);
        if s.last() == sep {
            rest.push(Seq::empty())
        } else {
            rest.update(rest.len() - 1, rest.last().push(s.last()))
        }
    }
}

proof fn lemma_split_nonempty(s: Seq<char>, sep: char)
    ensures
        split_on(s, sep).len() >= 1,
    decreases s.len(),
{
    if s.len() > 0 {
        lemma_split_nonempty(s.drop_last(), sep);
    }
}

pub open spec fn is_digit(c: char) -> bool {
    '0' <= c <= '9'
}

/// The number a string of decimal digits spells.
pub open spec fn decimal_value(v: Seq<char>) -> nat
    decreases v.len(),
{
    if v.len() == 0 {
        0
    } else {
        decimal_value(v.drop_last()) * 10 + ((v.last() as u32) - 48) as nat
    }
}

/// A canonical decimal `u64`: digits only, no leading zero, and in range.
pub open spec fn parse_u64_spec(v: Seq<char>) -> Result<u64, TextCommandFault> {
    if !(forall|i: int| 0 <= i < v.len() ==> is_digit(#[trigger] v[i])) || (v.len() > 1 && v[0] == '0') {
        Err(TextCommandFault::NonCanonicalInteger)
    } else if v.len() == 0 || decimal_value(v) > u64::MAX {
        Err(TextCommandFault::IntegerOutOfRange)
    } else {
        Ok(decimal_value(v) as u64)
    }
}

pub open spec fn is_eq_sign(f: Seq<char>) -> spec_fn(int) -> bool {
    |j: int| f[j] == '='
}

/// The value of a `name=value` field: the name before the first `=` must
/// be exactly `name`, and the value after it must not be empty.
pub open spec fn field_value_spec(f: Seq<char>, name: Seq<char>) -> Result<Seq<char>, TextCommandFault> {
    match first_index_where(f.len() as int, is_eq_sign(f)) {
        None => Err(TextCommandFault::UnexpectedField),
        Some(i) => if f.take(i) != name {
            Err(TextCommandFault::UnexpectedField)
        } else if i + 1 == f.len() {
            Err(TextCommandFault::EmptyValue)
        } else {
            Ok(f.skip(i + 1))
        },
    }
}

pub open spec fn numeric_field(f: Seq<char>, name: Seq<char>) -> Result<u64, TextCommandFault> {
    match field_value_spec(f, name) {
        Err(e) => Err(e),
        Ok(v) => parse_u64_spec(v),
    }
}

/// The kind whose code is exactly `code`, if any.
pub open spec fn kind_named(code: Seq<char>) -> Option<ResourceKind> {
    if code == kind_code(ResourceKind::Fodder) {
        Some(ResourceKind::Fodder)
    } else if code == kind_code(ResourceKind::Food) {
        Some(ResourceKind::Food)
    } else if code == kind_code(ResourceKind::Timber) {
        Some(ResourceKind::Timber)
    } else {
        None
    }
}

pub open spec fn parse_gather_spec(fields: Seq<Seq<char>>) -> Result<Command, TextCommandFault> {
    if fields.len() != 4 {
        Err(TextCommandFault::WrongFieldCount)
    } else {
        match numeric_field(fields[1], "actor"@) {
            Err(e) => Err(e),
            Ok(actor) => match numeric_field(fields[2], "claim"@) {
                Err(e) => Err(e),
                Ok(claim) => match numeric_field(fields[3], "site"@) {
                    Err(e) => Err(e),
                    Ok(site) => Ok(
                        Command::Gather(
                            GatherCommand {
                                actor: CharacterId(actor),
                                claim: ClaimId(claim),
                                site: SiteId(site),
                            },
                        ),
                    ),
                },
            },
        }
    }
}

pub open spec fn parse_witness_spec(fields: Seq<Seq<char>>) -> Result<Command, TextCommandFault> {
    if fields.len() != 3 {
        Err(TextCommandFault::WrongFieldCount)
    } else {
        match numeric_field(fields[1], "witness"@) {
            Err(e) => Err(e),
            Ok(witness) => match numeric_field(fields[2], "claim"@) {
                Err(e) => Err(e),
                Ok(claim) => Ok(
                    Command::Witness(WitnessCommand { witness: CharacterId(witness), claim: ClaimId(claim) }),
                ),
            },
        }
    }
}

/// The give spelling, read in this order: the kind, then the witness (`-`
/// is the only spelling of none), then giver, recipient and grams.
pub open spec fn parse_give_spec(fields: Seq<Seq<char>>) -> Result<Command, TextCommandFault> {
    if fields.len() != 6 {
        Err(TextCommandFault::WrongFieldCount)
    } else {
        match field_value_spec(fields[3], "kind"@) {
            Err(e) => Err(e),
            Ok(code) => match kind_named(code) {
                None => Err(TextCommandFault::UnknownKind),
                Some(kind) => match field_value_spec(fields[5], "witness"@) {
                    Err(e) => Err(e),
                    Ok(wv) => {
                        let witness: Result<Option<CharacterId>, TextCommandFault> = if wv == "-"@ {
                            Ok(None)
                        } else {
                            match parse_u64_spec(wv) {
                                Err(e) => Err(e),
                                Ok(x) => Ok(Some(CharacterId(x))),
                            }
                        };
                        match witness {
                            Err(e) => Err(e),
                            Ok(witness) => match numeric_field(fields[1], "giver"@) {
                                Err(e) => Err(e),
                                Ok(giver) => match numeric_field(fields[2], "to"@) {
                                    Err(e) => Err(e),
                                    Ok(to) => match numeric_field(fields[4], "g"@) {
                                        Err(e) => Err(e),
                                        Ok(g) => Ok(
                                            Command::Give(
                                                GiveCommand {
                                                    giver: CharacterId(giver),
                                                    recipient: CharacterId(to),
                                                    kind,
                                                    grams: mass_from(g),
                                                    witness,
                                                },
                                            ),
                                        ),
                                    },
                                },
                            },
                        }
                    },
                },
            },
        }
    }
}

/// What the seam makes of a line: the checks in order (empty, ASCII,
/// canonical whitespace), then the verb and its fields.
pub open spec fn parse_spec(s: Seq<char>) -> Result<Command, TextCommandFault> {
    if s.len() == 0 {
        Err(TextCommandFault::EmptyLine)
    } else if !is_ascii_chars(s) {
        Err(TextCommandFault::NonAscii)
    } else if noncanonical_whitespace(s) {
        Err(TextCommandFault::NonCanonicalWhitespace)
    } else {
        let fields = split_on(s, ' ');
        if fields[0] == "gather"@ {
            parse_gather_spec(fields)
        } else if fields[0] == "witness"@ {
            parse_witness_spec(fields)
        } else if fields[0] == "give"@ {
            parse_give_spec(fields)
        } else {
            Err(TextCommandFault::UnknownVerb)
        }
    }
}

// ---------------------------------------------------------------------------
// The exec seam
// ---------------------------------------------------------------------------

/// The pieces of `s` between spaces, in order.
fn split_fields(s: &Vec<char>) -> (r: Vec<Vec<char>>)
    ensures
        r@.map_values(|v: Vec<char>| v@) == split_on(s@, ' '),
{
    let mut done: Vec<Vec<char>> = Vec::new();
    let mut cur: Vec<char> = Vec::new();
    let mut i: usize = 0;
    while i < s.len()
        invariant
            i <= s@.len(),
            split_on(s@.take(i as int), ' ') == done@.map_values(|v: Vec<char>| v@).push(cur@),
        decreases s@.len() - i,
    {
        let c = s[i];
        let ghost before = split_on(s@.take(i as int), ' ');
        proof {
            assert(s@.take(i as int + 1).drop_last() =~= s@.take(i as int));
        }
        if c == ' ' {
            let finished = cur;
            done.push(finished);
            cur = Vec::new();
            proof {
                assert(split_on(s@.take(i as int + 1), ' ') == before.push(Seq::empty()));
                assert(done@.map_values(|v: Vec<char>| v@).push(cur@) =~= before.push(Seq::empty()));
            }
        } else {
            cur.push(c);
            proof {
                assert(split_on(s@.take(i as int + 1), ' ') == before.update(
                    before.len() - 1,
                    before.last().push(c),
                ));
                assert(done@.map_values(|v: Vec<char>| v@).push(cur@) =~= before.update(
                    before.len() - 1,
                    before.last().push(c),
                ));
            }
        }
        i = i + 1;
    }
    proof {
        assert(s@.take(s@.len() as int) =~= s@);
    }
    let ghost fin = done@.map_values(|v: Vec<char>| v@).push(cur@);
    done.push(cur);
    proof {
        assert(done@.map_values(|v: Vec<char>| v@) =~= fin);
    }
    done
}

proof fn lemma_decimal_step(v: Seq<char>, i: int)
    requires
        0 <= i < v.len(),
    ensures
        decimal_value(v.take(i + 1)) == decimal_value(v.take(i)) * 10 + ((v[i] as u32) - 48) as nat,
{
    assert(v.take(i + 1).drop_last() =~= v.take(i));
}

/// A prefix of a digit string spells at most what the whole string spells.
proof fn lemma_decimal_prefix(v: Seq<char>, j: int)
    requires
        0 <= j <= v.len(),
        forall|i: int| 0 <= i < v.len() ==> is_digit(#[trigger] v[i]),
    ensures
        decimal_value(v.take(j)) <= decimal_value(v),
    decreases v.len(),
{
    if j < v.len() {
        let d = v.drop_last();
        assert forall|i: int| 0 <= i < d.len() implies is_digit(#[trigger] d[i]) by {
            assert(d[i] == v[i]);
        }
        lemma_decimal_prefix(d, j);
        assert(d.take(j) =~= v.take(j));
    } else {
        assert(v.take(j) =~= v);
    }
}

/// A canonical decimal `u64`, or the fault that names why not.
fn parse_u64_chars(v: &Vec<char>) -> (r: Result<u64, TextCommandFault>)
    ensures
        r == parse_u64_spec(v@),
{
    let mut i: usize = 0;
    while i < v.len()
        invariant
            i <= v@.len(),
            forall|j: int| 0 <= j < i ==> is_digit(#[trigger] v@[j]),
        decreases v@.len() - i,
    {
        let c = v[i];
        if !('0' <= c && c <= '9') {
            return Err(TextCommandFault::NonCanonicalInteger);
        }
        i = i + 1;
    }
    if v.len() > 1 && v[0] == '0' {
        return Err(TextCommandFault::NonCanonicalInteger);
    }
    if v.len() == 0 {
        return Err(TextCommandFault::IntegerOutOfRange);
    }
    let mut acc: u64 = 0;
    let mut i: usize = 0;
    while i < v.len()
        invariant
            i <= v@.len(),
            forall|j: int| 0 <= j < v@.len() ==> is_digit(#[trigger] v@[j]),
            !(v@.len() > 1 && v@[0] == '0'),
            v@.len() > 0,
            acc == decimal_value(v@.take(i as int)),
        decreases v@.len() - i,
    {
        let d = (v[i] as u32 - 48) as u64;
        proof {
            lemma_decimal_step(v@, i as int);
        }
        let next = match acc.checked_mul(10) {
            Some(x) => x.checked_add(d),
            None => None,
        };
        match next {
            Some(x) => {
                acc = x;
            },
            None => {
                proof {
                    lemma_decimal_prefix(v@, i as int + 1);
                }
                return Err(TextCommandFault::IntegerOutOfRange);
            },
        }
        i = i + 1;
    }
    proof {
        assert(v@.take(v@.len() as int) =~= v@);
    }
    Ok(acc)
}

fn slice_chars(v: &Vec<char>, from: usize, to: usize) -> (r: Vec<char>)
    requires
        from <= to <= v@.len(),
    ensures
        r@ == v@.subrange(from as int, to as int),
{
    let mut out: Vec<char> = Vec::new();
    let mut i: usize = from;
    while i < to
        invariant
            from <= i <= to <= v@.len(),
            out@ == v@.subrange(from as int, i as int),
        decreases to - i,
    {
        out.push(v[i]);
        proof {
            assert(out@ =~= v@.subrange(from as int, i as int + 1));
        }
        i = i + 1;
    }
    out
}

/// The value of a `name=value` field.
fn field_value(field: &Vec<char>, expected: &str) -> (r: Result<Vec<char>, TextCommandFault>)
    ensures
        match r {
            Ok(v) => field_value_spec(field@, expected@) == Ok::<Seq<char>, TextCommandFault>(v@),
            Err(e) => field_value_spec(field@, expected@) == Err::<Seq<char>, TextCommandFault>(e),
        },
{
    let ghost p = is_eq_sign(field@);
    let mut i: usize = 0;
    while i < field.len() && field[i] != '='
        invariant
            i <= field@.len(),
            p == is_eq_sign(field@),
            forall|k: int| 0 <= k < i ==> !#[trigger] p(k),
        decreases field@.len() - i,
    {
        i = i + 1;
    }
    if i == field.len() {
        proof {
            lemma_no_index_where(field@.len() as int, p);
        }
        return Err(TextCommandFault::UnexpectedField);
    }
    proof {
        lemma_first_index_where(field@.len() as int, p, i as int);
    }
    let name = slice_chars(field, 0, i);
    let wanted = chars_of(expected);
    proof {
        assert(field@.subrange(0, i as int) =~= field@.take(i as int));
    }
    if !chars_equal(&name, &wanted) {
        return Err(TextCommandFault::UnexpectedField);
    }
    if i + 1 == field.len() {
        return Err(TextCommandFault::EmptyValue);
    }
    let value = slice_chars(field, i + 1, field.len());
    proof {
        assert(field@.subrange(i as int + 1, field@.len() as int) =~= field@.skip(i as int + 1));
    }
    Ok(value)
}

fn numeric_field_value(field: &Vec<char>, expected: &str) -> (r: Result<u64, TextCommandFault>)
    ensures
        r == numeric_field(field@, expected@),
{
    match field_value(field, expected) {
        Ok(v) => parse_u64_chars(&v),
        Err(e) => Err(e),
    }
}

fn equals_text(v: &Vec<char>, t: &str) -> (r: bool)
    ensures
        r == (v@ == t@),
{
    let w = chars_of(t);
    chars_equal(v, &w)
}

fn kind_from_chars(code: &Vec<char>) -> (r: Option<ResourceKind>)
    ensures
        r == kind_named(code@),
{
    if equals_text(code, ResourceKind::Fodder.code()) {
        Some(ResourceKind::Fodder)
    } else if equals_text(code, ResourceKind::Food.code()) {
        Some(ResourceKind::Food)
    } else if equals_text(code, ResourceKind::Timber.code()) {
        Some(ResourceKind::Timber)
    } else {
        None
    }
}

fn all_ascii(s: &Vec<char>) -> (r: bool)
    ensures
        r == is_ascii_chars(s@),
{
    let mut i: usize = 0;
    while i < s.len()
        invariant
            i <= s@.len(),
            forall|j: int| 0 <= j < i ==> #[trigger] s@[j] < '\u{80}',
        decreases s@.len() - i,
    {
        if s[i] >= '\u{80}' {
            proof {
                assert(!(s@[i as int] < '\u{80}'));
            }
            return false;
        }
        i = i + 1;
    }
    true
}

fn odd_spacing(s: &Vec<char>) -> (r: bool)
    requires
        s@.len() > 0,
    ensures
        r == noncanonical_whitespace(s@),
{
    let first = s[0];
    let last = s[s.len() - 1];
    let mut odd = is_white_char(first) || is_white_char(last);
    let mut i: usize = 0;
    while i < s.len()
        invariant
            i <= s@.len(),
            s@.len() > 0,
            odd == (is_white(s@[0]) || is_white(s@.last()) || (exists|j: int|
                0 <= j < i && j < s@.len() - 1 && #[trigger] s@[j] == ' ' && s@[j + 1] == ' ') || (exists|j: int|
                0 <= j < i && (#[trigger] s@[j] == '\t' || s@[j] == '\r' || s@[j] == '\n'))),
        decreases s@.len() - i,
    {
        let c = s[i];
        if c == '\t' || c == '\r' || c == '\n' {
            odd = true;
        }
        if i + 1 < s.len() && c == ' ' && s[i + 1] == ' ' {
            odd = true;
        }
        i = i + 1;
    }
    odd
}

pub open spec fn field_views(fields: Seq<Vec<char>>) -> Seq<Seq<char>> {
    fields.map_values(|v: Vec<char>| v@)
}

fn parse_gather_fields(fields: &Vec<Vec<char>>) -> (r: Result<Command, TextCommandFault>)
    ensures
        r == parse_gather_spec(field_views(fields@)),
{
    if fields.len() != 4 {
        return Err(TextCommandFault::WrongFieldCount);
    }
    let actor = match numeric_field_value(&fields[1], "actor") {
        Ok(x) => x,
        Err(e) => return Err(e),
    };
    let claim = match numeric_field_value(&fields[2], "claim") {
        Ok(x) => x,
        Err(e) => return Err(e),
    };
    let site = match numeric_field_value(&fields[3], "site") {
        Ok(x) => x,
        Err(e) => return Err(e),
    };
    Ok(Command::Gather(GatherCommand { actor: CharacterId(actor), claim: ClaimId(claim), site: SiteId(site) }))
}

fn parse_witness_fields(fields: &Vec<Vec<char>>) -> (r: Result<Command, TextCommandFault>)
    ensures
        r == parse_witness_spec(field_views(fields@)),
{
    if fields.len() != 3 {
        return Err(TextCommandFault::WrongFieldCount);
    }
    let witness = match numeric_field_value(&fields[1], "witness") {
        Ok(x) => x,
        Err(e) => return Err(e),
    };
    let claim = match numeric_field_value(&fields[2], "claim") {
        Ok(x) => x,
        Err(e) => return Err(e),
    };
    Ok(Command::Witness(WitnessCommand { witness: CharacterId(witness), claim: ClaimId(claim) }))
}

fn parse_give_fields(fields: &Vec<Vec<char>>) -> (r: Result<Command, TextCommandFault>)
    ensures
        r == parse_give_spec(field_views(fields@)),
{
    if fields.len() != 6 {
        return Err(TextCommandFault::WrongFieldCount);
    }
    let code = match field_value(&fields[3], "kind") {
        Ok(v) => v,
        Err(e) => return Err(e),
    };
    let kind = match kind_from_chars(&code) {
        Some(k) => k,
        None => return Err(TextCommandFault::UnknownKind),
    };
    // "-" is the only spelling of an absent witness; an empty value is
    // still a fault, so absence is explicit rather than inferred from a
    // missing field.
    let witness_value = match field_value(&fields[5], "witness") {
        Ok(v) => v,
        Err(e) => return Err(e),
    };
    let witness = if equals_text(&witness_value, "-") {
        None
    } else {
        match parse_u64_chars(&witness_value) {
            Ok(x) => Some(CharacterId(x)),
            Err(e) => return Err(e),
        }
    };
    let giver = match numeric_field_value(&fields[1], "giver") {
        Ok(x) => x,
        Err(e) => return Err(e),
    };
    let to = match numeric_field_value(&fields[2], "to") {
        Ok(x) => x,
        Err(e) => return Err(e),
    };
    let g = match numeric_field_value(&fields[4], "g") {
        Ok(x) => x,
        Err(e) => return Err(e),
    };
    let grams = MassGrams::new(g);
    proof {
        crate::vocab::lemma_mass_from(g);
        crate::vocab::lemma_mass_eq(grams, mass_from(g));
    }
    Ok(Command::Give(GiveCommand { giver: CharacterId(giver), recipient: CharacterId(to), kind, grams, witness }))
}

/// Parse one line of the external command spelling.
pub fn parse_text_command(line: &str) -> (r: Result<Command, TextCommandFault>)
    ensures
        r == parse_spec(line@),
{
    let s = chars_of(line);
    if s.len() == 0 {
        return Err(TextCommandFault::EmptyLine);
    }
    if !all_ascii(&s) {
        return Err(TextCommandFault::NonAscii);
    }
    if odd_spacing(&s) {
        return Err(TextCommandFault::NonCanonicalWhitespace);
    }
    let fields = split_fields(&s);
    proof {
        lemma_split_nonempty(s@, ' ');
        assert(fields@[0]@ == split_on(s@, ' ')[0]);
    }
    if equals_text(&fields[0], "gather") {
        parse_gather_fields(&fields)
    } else if equals_text(&fields[0], "witness") {
        parse_witness_fields(&fields)
    } else if equals_text(&fields[0], "give") {
        parse_give_fields(&fields)
    } else {
        Err(TextCommandFault::UnknownVerb)
    }
}

fn is_white_char(c: char) -> (r: bool)
    ensures
        r == is_white(c),
{
    c == ' ' || c == '\t' || c == '\n' || c == '\x0B' || c == '\x0C' || c == '\r'
}

} // verus!
