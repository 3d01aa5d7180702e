//! Reading the bot's settings from environment variables: the Discord token
//! and the guilds to register commands for while debugging.

use vstd::prelude::*;

use crate::bot::ApplicationCommandUpdate;
use crate::text::{append_str, chars_of, slice_chars, string_of, trim, trim_spec};

verus! {

/// Why an environment variable could not be read.
#[derive(Clone, Copy, Debug, PartialEq, Eq, Structural)]
pub enum VarError {
    /// The variable is not set.
    NotPresent,
    /// The variable's value is not valid unicode.
    NotUnicode,
}

/// Why a decimal number could not be read, as `u64::from_str` reports it.
#[derive(Clone, Copy, Debug, PartialEq, Eq, Structural)]
pub enum IntErrorKind {
    Empty,
    InvalidDigit,
    PosOverflow,
}

/// The value of the decimal digit `c`, if it is one.
pub open spec fn digit_value(c: char) -> Option<int> {
    if '0' <= c <= '9' {
        Some(c as int - '0' as int)
    } else {
        None
    }
}

/// The value of the digits `ds` after the value `acc` read so far, or why
/// they are no `u64`: the first character that is no digit, or the first
/// digit after which the value no longer fits.
pub open spec fn digits_value(ds: Seq<char>, acc: int) -> Result<int, IntErrorKind>
    decreases ds.len(),
{
    if ds.len() == 0 {
        Ok(acc)
    } else {
        match digit_value(ds[0]) {
            None => Err(IntErrorKind::InvalidDigit),
            Some(d) => if acc * 10 + d > u64::MAX {
                Err(IntErrorKind::PosOverflow)
            } else {
                digits_value(ds.drop_first(), acc * 10 + d)
            },
        }
    }
}

/// What `u64::from_str` makes of `s`: an optional `+` followed by decimal
/// digits.
pub open spec fn u64_value(s: Seq<char>) -> Result<int, IntErrorKind> {
    if s.len() == 0 {
        Err(IntErrorKind::Empty)
    } else if s[0] == '+' {
        if s.len() == 1 {
            Err(IntErrorKind::InvalidDigit)
        } else {
            digits_value(s.drop_first(), 0)
        }
    } else {
        digits_value(s, 0)
    }
}

/// Reads `s` as a decimal `u64`.
pub fn parse_u64(s: &[char]) -> (r: Result<u64, IntErrorKind>)
    ensures
        match u64_value(s@) {
            Ok(v) => r == Ok::<u64, IntErrorKind>(v as u64),
            Err(e) => r == Err::<u64, IntErrorKind>(e),
        },
{
    let n = s.len();
    if n == 0 {
        return Err(IntErrorKind::Empty);
    }
    let mut i: usize = 0;
    if s[0] == '+' {
        if n == 1 {
            return Err(IntErrorKind::InvalidDigit);
        }
        i = 1;
    }
    let ghost want = u64_value(s@);
    assert(s@.subrange(i as int, n as int) == if s@[0] == '+' {
        s@.drop_first()
    } else {
        s@
    });
    let mut acc: u64 = 0;
    while i < n
        invariant
            n == s@.len(),
            i <= n,
            want == u64_value(s@),
            digits_value(s@.subrange(i as int, n as int), acc as int) == want,
        decreases n - i,
    {
        let c = s[i];
        assert(s@.subrange(i as int, n as int)[0] == c);
        assert(s@.subrange(i as int, n as int).drop_first() =~= s@.subrange(i + 1, n as int));
        if !('0' <= c && c <= '9') {
            return Err(IntErrorKind::InvalidDigit);
        }
        let d = (c as u32 - '0' as u32) as u64;
        if acc > 1844674407370955161 || (acc == 1844674407370955161 && d > 5) {
            return Err(IntErrorKind::PosOverflow);
        }
        acc = acc * 10 + d;
        i += 1;
    }
    assert(s@.subrange(n as int, n as int) =~= Seq::<char>::empty());
    Ok(acc)
}

/// The pieces of `s` between commas.
pub open spec fn split_commas(s: Seq<char>) -> Seq<Seq<char>>
    decreases s.len(),
{
    if s.len() == 0 {
        seq![Seq::empty()]
    } else {
        let rest = split_commas(s.drop_first());
        if s[0] == ',' {
            seq![Seq::empty()] + rest
        } else {
            rest.update(0, seq![s[0]] + rest[0])
        }
    }
}

/// The pieces of `s` between commas, without an empty piece after a final
/// comma or in an empty string: what `str::split_terminator(',')` yields.
pub open spec fn split_terminator_spec(s: Seq<char>) -> Seq<Seq<char>> {
    let pieces = split_commas(s);
    if pieces.last().len() == 0 {
        pieces.drop_last()
    } else {
        pieces
    }
}

/// Splitting never yields no piece.
proof fn lemma_split_nonempty(s: Seq<char>)
    ensures
        split_commas(s).len() >= 1,
    decreases s.len(),
{
    if s.len() > 0 {
        lemma_split_nonempty(s.drop_first());
    }
}

/// Splitting `s` from position `start` at the comma at position `c`, with
/// no comma between them.
proof fn lemma_split_at(s: Seq<char>, start: int, c: int)
    requires
        0 <= start <= c < s.len(),
        s[c] == ',',
        forall|j: int| start <= j < c ==> s[j] != ',',
    ensures
        split_commas(s.subrange(start, s.len() as int)) == seq![s.subrange(start, c)] + split_commas(
            s.subrange(c + 1, s.len() as int),
        ),
    decreases c - start,
{
    let t = s.subrange(start, s.len() as int);
    assert(t.drop_first() =~= s.subrange(start + 1, s.len() as int));
    if start == c {
        assert(s.subrange(start, c) =~= Seq::<char>::empty());
        assert(s.subrange(c + 1, s.len() as int) =~= t.drop_first());
    } else {
        lemma_split_at(s, start + 1, c);
        lemma_split_nonempty(s.subrange(c + 1, s.len() as int));
        assert(seq![s[start]] + s.subrange(start + 1, c) =~= s.subrange(start, c));
        assert(split_commas(t) =~= seq![s.subrange(start, c)] + split_commas(s.subrange(c + 1, s.len() as int)));
    }
}

/// Splitting from position `start` where no comma follows gives the rest.
proof fn lemma_split_end(s: Seq<char>, start: int)
    requires
        0 <= start <= s.len(),
        forall|j: int| start <= j < s.len() ==> s[j] != ',',
    ensures
        split_commas(s.subrange(start, s.len() as int)) == seq![s.subrange(start, s.len() as int)],
    decreases s.len() - start,
{
    let t = s.subrange(start, s.len() as int);
    if start < s.len() {
        assert(t.drop_first() =~= s.subrange(start + 1, s.len() as int));
        lemma_split_end(s, start + 1);
        assert(seq![s[start]] + s.subrange(start + 1, s.len() as int) =~= t);
        assert(split_commas(t) =~= seq![t]);
    } else {
        assert(t =~= Seq::<char>::empty());
    }
}

/// The values of the pieces, each trimmed and read as a decimal `u64`, or
/// why the first piece that is no `u64` is not.
pub open spec fn ids_of_pieces(pieces: Seq<Seq<char>>) -> Result<Seq<u64>, IntErrorKind>
    decreases pieces.len(),
{
    if pieces.len() == 0 {
        Ok(Seq::empty())
    } else {
        match u64_value(trim_spec(pieces[0])) {
            Err(e) => Err(e),
            Ok(v) => match ids_of_pieces(pieces.drop_first()) {
                Ok(rest) => Ok(seq![v as u64] + rest),
                Err(e) => Err(e),
            },
        }
    }
}

/// The guild ids of the list `value`: the pieces of the trimmed value
/// between commas, each trimmed and read as a decimal `u64`.
pub open spec fn guild_ids_spec(value: Seq<char>) -> Result<Seq<u64>, IntErrorKind> {
    ids_of_pieces(split_terminator_spec(trim_spec(value)))
}

/// Pieces that read as `u64`s, followed by one that does not, fail with it.
proof fn lemma_ids_first_err(p: Seq<Seq<char>>, k: int)
    requires
        0 <= k < p.len(),
        forall|j: int| 0 <= j < k ==> u64_value(trim_spec(#[trigger] p[j])) is Ok,
        u64_value(trim_spec(p[k])) is Err,
    ensures
        ids_of_pieces(p) == Err::<Seq<u64>, IntErrorKind>(u64_value(trim_spec(p[k]))->Err_0),
    decreases k,
{
    if k > 0 {
        assert forall|j: int| 0 <= j < k - 1 implies u64_value(trim_spec(#[trigger] p.drop_first()[j])) is Ok by {
            assert(p.drop_first()[j] == p[j + 1]);
        }
        assert(p.drop_first()[k - 1] == p[k]);
        assert(u64_value(trim_spec(p[0])) is Ok);
        lemma_ids_first_err(p.drop_first(), k - 1);
    }
}

/// Pieces that all read as `u64`s give their values.
proof fn lemma_ids_all_ok(p: Seq<Seq<char>>, ids: Seq<u64>)
    requires
        ids.len() == p.len(),
        forall|k: int| 0 <= k < p.len() ==> u64_value(trim_spec(#[trigger] p[k])) is Ok
            && ids[k] == u64_value(trim_spec(p[k]))->Ok_0 as u64,
    ensures
        ids_of_pieces(p) == Ok::<Seq<u64>, IntErrorKind>(ids),
    decreases p.len(),
{
    if p.len() > 0 {
        assert forall|k: int| 0 <= k < p.drop_first().len() implies u64_value(trim_spec(#[trigger] p.drop_first()[k])) is Ok
            && ids.drop_first()[k] == u64_value(trim_spec(p.drop_first()[k]))->Ok_0 as u64 by {
            assert(p.drop_first()[k] == p[k + 1]);
        }
        lemma_ids_all_ok(p.drop_first(), ids.drop_first());
        assert(u64_value(trim_spec(p[0])) is Ok);
        let v = u64_value(trim_spec(p[0]))->Ok_0;
        assert(ids[0] == v as u64);
        assert(ids_of_pieces(p) == Ok::<Seq<u64>, IntErrorKind>(seq![v as u64] + ids.drop_first()));
        assert(ids =~= seq![ids[0]] + ids.drop_first());
    } else {
        assert(ids =~= Seq::<u64>::empty());
    }
}

/// Reads a comma-separated list of guild ids.
pub fn parse_guild_ids(value: &str) -> (r: Result<Vec<u64>, IntErrorKind>)
    ensures
        match guild_ids_spec(value@) {
            Ok(ids) => r matches Ok(v) && v@ == ids,
            Err(e) => r == Err::<Vec<u64>, IntErrorKind>(e),
        },
{
    let chars = chars_of(value);
    let s = trim(chars.as_slice());
    let ghost sv = s@;
    let n = s.len();
    let ghost all = split_commas(sv);
    let ghost pieces = split_terminator_spec(sv);
    let mut ids: Vec<u64> = Vec::new();
    let mut start: usize = 0;
    let mut i: usize = 0;
    let ghost mut done: Seq<Seq<char>> = Seq::empty();
    assert(sv.subrange(0, n as int) =~= sv);
    while i < n
        invariant
            n == sv.len(),
            sv == s@,
            sv == trim_spec(value@),
            all == split_commas(sv),
            pieces == split_terminator_spec(sv),
            start <= i <= n,
            forall|j: int| start <= j < i ==> sv[j] != ',',
            done + split_commas(sv.subrange(start as int, n as int)) == all,
            ids@.len() == done.len(),
            forall|k: int| 0 <= k < done.len() ==> u64_value(trim_spec(#[trigger] done[k])) is Ok
                && ids@[k] == u64_value(trim_spec(done[k]))->Ok_0 as u64,
        decreases n - i,
    {
        if s[i] == ',' {
            proof {
                lemma_split_at(sv, start as int, i as int);
                lemma_split_nonempty(sv.subrange(i + 1, n as int));
            }
            let piece = slice_chars(s.as_slice(), start, i);
            let t = trim(piece.as_slice());
            let ghost k = done.len() as int;
            assert(all[k] == piece@);
            assert(all.len() > k + 1);
            match parse_u64(t.as_slice()) {
                Ok(id) => {
                    ids.push(id);
                    proof {
                        done = done.push(piece@);
                        assert(done + split_commas(sv.subrange(i + 1, n as int)) =~= all);
                    }
                },
                Err(e) => {
                    proof {
                        assert(pieces.len() >= all.len() - 1);
                        assert forall|j: int| 0 <= j < k implies u64_value(trim_spec(#[trigger] pieces[j])) is Ok by {
                            assert(all[j] == done[j]);
                            assert(pieces[j] == all[j]);
                        }
                        assert(pieces[k] == all[k]);
                        lemma_ids_first_err(pieces, k);
                    }
                    return Err(e);
                },
            }
            start = i + 1;
        }
        i += 1;
    }
    proof {
        lemma_split_end(sv, start as int);
    }
    let last = slice_chars(s.as_slice(), start, n);
    assert(all =~= done.push(last@));
    if last.len() > 0 {
        let t = trim(last.as_slice());
        let ghost k = done.len() as int;
        assert(pieces == all);
        match parse_u64(t.as_slice()) {
            Ok(id) => {
                ids.push(id);
                proof {
                    lemma_ids_all_ok(pieces, ids@);
                }
                Ok(ids)
            },
            Err(e) => {
                proof {
                    assert forall|j: int| 0 <= j < k implies u64_value(trim_spec(#[trigger] pieces[j])) is Ok by {
                        assert(all[j] == done[j]);
                    }
                    lemma_ids_first_err(pieces, k);
                }
                Err(e)
            },
        }
    } else {
        proof {
            assert(pieces =~= done);
            lemma_ids_all_ok(pieces, ids@);
        }
        Ok(ids)
    }
}

/// The Discord token, from the value of its environment variable.
pub fn discord_token_from_env(var: Result<String, VarError>) -> (r: Result<String, VarError>)
    ensures
        r == var,
{
    var
}

/// Why the debug guilds could not be read.
#[derive(Clone, Copy, Debug, PartialEq, Eq, Structural)]
pub enum DebugGuildsError {
    /// The variable's value is not valid unicode.
    NotUnicode,
    /// A guild id is no decimal `u64`.
    InvalidGuildId(IntErrorKind),
}

/// Where to register the application commands, from the value of the debug
/// guilds variable: for the listed guilds only where it is set, globally
/// where it is not.
pub fn debug_guilds_from_env(var: Result<String, VarError>) -> (r: Result<
    Option<ApplicationCommandUpdate>,
    DebugGuildsError,
>)
    ensures
        match var {
            Ok(value) => match guild_ids_spec(value@) {
                Ok(ids) => r matches Ok(Some(ApplicationCommandUpdate::Only(v))) && v@ == ids,
                Err(e) => r == Err::<Option<ApplicationCommandUpdate>, DebugGuildsError>(
                    DebugGuildsError::InvalidGuildId(e),
                ),
            },
            Err(VarError::NotPresent) => r matches Ok(Some(ApplicationCommandUpdate::Global)),
            Err(VarError::NotUnicode) => r == Err::<Option<ApplicationCommandUpdate>, DebugGuildsError>(
                DebugGuildsError::NotUnicode,
            ),
        },
{
    match var {
        Ok(value) => match parse_guild_ids(value.as_str()) {
            Ok(ids) => Ok(Some(ApplicationCommandUpdate::Only(ids))),
            Err(e) => Err(DebugGuildsError::InvalidGuildId(e)),
        },
        Err(VarError::NotPresent) => Ok(Some(ApplicationCommandUpdate::default_update())),
        Err(VarError::NotUnicode) => Err(DebugGuildsError::NotUnicode),
    }
}


/// The message for an environment variable `key` that is not set.
pub fn missing_var_message(key: &str) -> (r: String)
    ensures
        r@ == key@ + " environment variable not found"@,
{
    let mut chars: Vec<char> = Vec::new();
    append_str(&mut chars, key);
    append_str(&mut chars, " environment variable not found");
    string_of(chars.as_slice())
}

/// The message for an environment variable `key` whose value is invalid.
pub fn invalid_var_message(key: &str) -> (r: String)
    ensures
        r@ == key@ + " invalid"@,
{
    let mut chars: Vec<char> = Vec::new();
    append_str(&mut chars, key);
    append_str(&mut chars, " invalid");
    string_of(chars.as_slice())
}

} // verus!
