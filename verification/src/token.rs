//! The token that keeps the user's permission from one run to the next.
use vstd::prelude::*;

use crate::error::PortalError;

verus! {

/// The longest token that is kept, in bytes.
pub const MAX_TOKEN_LENGTH: u64 = 4096;

/// The permissions of a token file: its owner may read and write it, nobody else may do
/// anything.
pub const TOKEN_MODE: u32 = 0o600;

/// The length of a text in bytes.
pub open spec fn byte_length(text: Seq<char>) -> nat {
    vstd::utf8::encode_utf8(text).len()
}

/// Whether a token may be written.
pub open spec fn is_writable(token: Seq<char>) -> bool {
    1 <= byte_length(token) <= MAX_TOKEN_LENGTH
}

/// Whether a token file of this length may be read. There is no length where there
/// is no file.
pub open spec fn is_readable(length: Option<u64>) -> bool {
    length matches Some(length) && length <= MAX_TOKEN_LENGTH
}

/// The token in what a token file holds, where it could be read.
pub open spec fn token_in(content: Option<Seq<char>>) -> Option<Seq<char>> {
    match content {
        Some(text) if text.len() > 0 => Some(text),
        _ => None,
    }
}

/// A text that may be missing, as mathematics.
pub open spec fn optional_text(text: Option<String>) -> Option<Seq<char>> {
    match text {
        Some(text) => Some(text@),
        None => None,
    }
}

/// Whether a token file of this length may be read.
pub fn may_read_token(length: Option<u64>) -> (may: bool)
    ensures
        may == is_readable(length),
{
    match length {
        Some(length) => length <= MAX_TOKEN_LENGTH,
        None => false,
    }
}

/// The token in what a token file holds, where it could be read.
pub fn stored_token(content: Option<String>) -> (token: Option<String>)
    ensures
        token is Some <==> token_in(optional_text(content)) is Some,
        token matches Some(token) ==> Some(token@) == token_in(optional_text(content)),
{
    match content {
        Some(text) => if text.as_str().is_empty() {
            None
        } else {
            Some(text)
        },
        None => None,
    }
}

/// A decimal digit.
pub open spec fn digit(value: nat) -> char {
    ('0' as u32 + value) as char
}

/// A number in decimal.
pub open spec fn decimal(number: nat) -> Seq<char>
    decreases number,
{
    if number < 10 {
        seq![digit(number)]
    } else {
        decimal(number / 10).push(digit(number % 10))
    }
}

/// The extension of the file that a process writes before it replaces the token.
pub open spec fn temporary_name(process: u32) -> Seq<char> {
    decimal(process as nat) + ".tmp"@
}

/// A decimal digit as a text.
fn digit_text(value: u32) -> (text: &'static str)
    requires
        value < 10,
    ensures
        text@ == seq![digit(value as nat)],
{
    proof {
        reveal_strlit("0");
        reveal_strlit("1");
        reveal_strlit("2");
        reveal_strlit("3");
        reveal_strlit("4");
        reveal_strlit("5");
        reveal_strlit("6");
        reveal_strlit("7");
        reveal_strlit("8");
        reveal_strlit("9");
    }
    let text = match value {
        0 => "0",
        1 => "1",
        2 => "2",
        3 => "3",
        4 => "4",
        5 => "5",
        6 => "6",
        7 => "7",
        8 => "8",
        _ => "9",
    };
    proof {
        assert(text@ =~= seq![digit(value as nat)]);
    }
    text
}

/// A number in decimal.
fn decimal_text(number: u32) -> (text: String)
    ensures
        text@ == decimal(number as nat),
    decreases number,
{
    if number < 10 {
        digit_text(number).to_owned()
    } else {
        let mut text = decimal_text(number / 10);
        text.append(digit_text(number % 10));
        proof {
            assert(text@ =~= decimal(number as nat));
        }
        text
    }
}

/// The extension of the file that a process writes before it replaces the token.
pub fn temporary_extension(process: u32) -> (extension: String)
    ensures
        extension@ == temporary_name(process),
{
    let mut extension = decimal_text(process);
    extension.append(".tmp");
    extension
}

/// A step of writing a token.
#[derive(Clone, Copy, Debug, PartialEq, Eq, Structural)]
pub enum WriteStep {
    /// Create the temporary file, which must not exist, with these permissions.
    Create { mode: u32 },
    /// Write the token to it.
    Write,
    /// Make it durable.
    Sync,
    /// Put it in the place of the token file.
    Rename,
    /// Remove it.
    RemoveTemporary,
    /// The token is written.
    Succeed,
    /// The token is not written.
    Fail,
}

/// The step after one that succeeded or did not.
pub open spec fn following(step: WriteStep, succeeded: bool) -> WriteStep {
    match step {
        WriteStep::Create { .. } => if succeeded {
            WriteStep::Write
        } else {
            WriteStep::Fail
        },
        WriteStep::Write => if succeeded {
            WriteStep::Sync
        } else {
            WriteStep::RemoveTemporary
        },
        WriteStep::Sync => if succeeded {
            WriteStep::Rename
        } else {
            WriteStep::RemoveTemporary
        },
        WriteStep::Rename => if succeeded {
            WriteStep::Succeed
        } else {
            WriteStep::RemoveTemporary
        },
        WriteStep::RemoveTemporary => WriteStep::Fail,
        WriteStep::Succeed => WriteStep::Succeed,
        WriteStep::Fail => WriteStep::Fail,
    }
}

/// The step that writing a token has come to, after steps with these results.
pub open spec fn reached(results: Seq<bool>) -> WriteStep
    decreases results.len(),
{
    if results.len() == 0 {
        WriteStep::Create { mode: TOKEN_MODE }
    } else {
        following(reached(results.drop_last()), results.last())
    }
}

/// Begins to write a token, where it may be written.
pub fn begin_write(token: &str) -> (first: Result<WriteStep, PortalError>)
    ensures
        first == if is_writable(token@) {
            Ok(WriteStep::Create { mode: TOKEN_MODE })
        } else {
            Err(PortalError::InvalidTokenLength)
        },
        first matches Ok(step) ==> step == reached(Seq::empty()),
{
    let length = token.as_bytes().len();
    if length == 0 || length as u64 > MAX_TOKEN_LENGTH {
        return Err(PortalError::InvalidTokenLength);
    }
    Ok(WriteStep::Create { mode: TOKEN_MODE })
}

/// The step after one that succeeded or did not.
pub fn next_write_step(step: WriteStep, succeeded: bool) -> (next: WriteStep)
    ensures
        next == following(step, succeeded),
{
    match step {
        WriteStep::Create { .. } if succeeded => WriteStep::Write,
        WriteStep::Create { .. } => WriteStep::Fail,
        WriteStep::Write if succeeded => WriteStep::Sync,
        WriteStep::Sync if succeeded => WriteStep::Rename,
        WriteStep::Rename if succeeded => WriteStep::Succeed,
        WriteStep::Write | WriteStep::Sync | WriteStep::Rename => WriteStep::RemoveTemporary,
        WriteStep::RemoveTemporary => WriteStep::Fail,
        WriteStep::Succeed => WriteStep::Succeed,
        WriteStep::Fail => WriteStep::Fail,
    }
}

/// What may be written is what is read back: a file that holds just this token may
/// be read and gives it, exactly where the token may be written.
pub proof fn law_token_reads_back(token: Seq<char>, length: u64)
    requires
        length == byte_length(token),
    ensures
        is_writable(token) <==> is_readable(Some(length)) && token_in(Some(token)) == Some(token),
{
    if token.len() > 0 {
        vstd::utf8::encode_utf8_first_scalar(token);
        assert(vstd::utf8::encode_utf8(token).len() > 0);
    }
}

/// Two numbers with the same decimal digits are the same.
proof fn lemma_decimal_is_unique(a: nat, b: nat)
    requires
        decimal(a) == decimal(b),
    ensures
        a == b,
    decreases a,
{
    lemma_decimal_length(a);
    lemma_decimal_length(b);
    assert(decimal(a).last() == digit(a % 10));
    assert(decimal(b).last() == digit(b % 10));
    assert(a % 10 == b % 10);
    if a >= 10 && b >= 10 {
        assert(decimal(a).drop_last() =~= decimal(a / 10));
        assert(decimal(b).drop_last() =~= decimal(b / 10));
        lemma_decimal_is_unique(a / 10, b / 10);
    }
}

/// Numbers of more than one digit have more than one digit.
proof fn lemma_decimal_length(number: nat)
    ensures
        decimal(number).len() >= 1,
        number >= 10 <==> decimal(number).len() >= 2,
    decreases number,
{
    if number >= 10 {
        lemma_decimal_length(number / 10);
    }
}

/// Two processes never write to the same temporary file.
pub proof fn law_processes_write_apart(a: u32, b: u32)
    requires
        a != b,
    ensures
        temporary_name(a) != temporary_name(b),
{
    if temporary_name(a) == temporary_name(b) {
        let x = decimal(a as nat);
        let y = decimal(b as nat);
        let end = ".tmp"@;
        assert(x.len() == y.len()) by {
            assert((x + end).len() == (y + end).len());
        }
        assert(x =~= (x + end).take(x.len() as int));
        assert(y =~= (y + end).take(y.len() as int));
        lemma_decimal_is_unique(a as nat, b as nat);
    }
}

/// The token file is replaced only by a file that was written and made durable.
pub proof fn law_only_durable_files_replace(results: Seq<bool>)
    ensures
        reached(results) == WriteStep::Rename <==> results == seq![true, true, true],
        reached(results) == WriteStep::Succeed <==> results.len() >= 4 && results.take(4) == seq![
            true,
            true,
            true,
            true,
        ],
    decreases results.len(),
{
    reveal_with_fuel(reached, 5);
    if results.len() > 4 {
        let before = results.drop_last();
        law_only_durable_files_replace(before);
        assert(before.take(4) =~= results.take(4));
    } else if results.len() == 4 {
        assert(results.take(4) =~= results);
        assert(results =~= seq![results[0], results[1], results[2], results[3]]);
    } else if results.len() == 3 {
        assert(results =~= seq![results[0], results[1], results[2]]);
    }
}

/// The file that may replace the token is created once, first of all, and nobody but
/// its owner has any permission on it, whatever the process masks out.
pub proof fn law_token_file_is_private(results: Seq<bool>, mask: u32)
    ensures
        reached(results) is Create <==> results.len() == 0,
        reached(results) matches WriteStep::Create { mode } ==> {
            &&& (mode & !mask) & !0o600u32 == 0
            &&& mode == 0o600
        },
    decreases results.len(),
{
    assert((TOKEN_MODE & !mask) & !0o600u32 == 0) by (bit_vector);
    if results.len() > 0 {
        law_token_file_is_private(results.drop_last(), mask);
    }
}

/// A temporary file that was created and did not replace the token is removed before
/// the write fails.
pub proof fn law_failure_removes_temporary(results: Seq<bool>)
    requires
        results.len() > 0,
        results[0],
        reached(results) == WriteStep::Fail,
    ensures
        exists|at: int|
            0 < at < results.len() && reached(#[trigger] results.take(at))
                == WriteStep::RemoveTemporary,
    decreases results.len(),
{
    let before = results.drop_last();
    assert(results.take(results.len() - 1) =~= before);
    reveal_with_fuel(reached, 2);
    if reached(before) == WriteStep::Fail {
        assert(before.len() > 0);
        law_failure_removes_temporary(before);
        let at = choose|at: int|
            0 < at < before.len() && reached(#[trigger] before.take(at))
                == WriteStep::RemoveTemporary;
        assert(results.take(at) =~= before.take(at));
    } else {
        assert(before.len() > 0);
    }
}

/// A token is kept exactly where its bytes are one to 4096, whatever its characters; a file
/// is read exactly where it is there and no longer than that; and whatever text was read is
/// the token, unless there is none.
pub proof fn law_token_lengths(token: Seq<char>, length: u64)
    ensures
        is_writable(token) <==> 1 <= vstd::utf8::encode_utf8(token).len() <= 4096,
        is_readable(Some(length)) <==> length <= 4096,
        !is_readable(None),
        token_in(Some(token)) == if token == Seq::<char>::empty() {
            None
        } else {
            Some(token)
        },
        token_in(None) is None,
{
    if token.len() == 0 {
        assert(token =~= Seq::empty());
    }
}

/// A text that may be missing is missing exactly where it is, and else is the text.
pub proof fn law_optional_text(text: String)
    ensures
        optional_text(Some(text)) == Some(text@),
        optional_text(None) is None,
{
}

/// The number that decimal digits write.
pub open spec fn number_of(digits: Seq<char>) -> int
    decreases digits.len(),
{
    if digits.len() == 0 {
        0
    } else {
        10 * number_of(digits.drop_last()) + (digits.last() as int - 48)
    }
}

/// A number's decimal digits write that number, are digits, and do not start with a 0 that
/// could be left out.
proof fn lemma_decimal_writes(number: nat)
    ensures
        number_of(decimal(number)) == number,
        decimal(number).len() > 0,
        forall|i: int| 0 <= i < decimal(number).len() ==> '0' <= #[trigger] decimal(number)[i] <= '9',
        number > 0 ==> decimal(number)[0] != '0',
    decreases number,
{
    reveal_with_fuel(number_of, 2);
    if number < 10 {
        assert(decimal(number).drop_last() =~= Seq::empty());
    } else {
        lemma_decimal_writes(number / 10);
        assert(decimal(number).drop_last() =~= decimal(number / 10));
        assert(decimal(number)[0] == decimal(number / 10)[0]);
    }
}

/// A temporary file's extension is the process's number in decimal, and `.tmp`.
pub proof fn law_temporary_name(process: u32)
    ensures
        ({
            let name = temporary_name(process);
            let digits = name.take(name.len() - 4);
            &&& name.len() > 4
            &&& name.skip(name.len() - 4) == seq!['.', 't', 'm', 'p']
            &&& number_of(digits) == process
            &&& forall|i: int| 0 <= i < digits.len() ==> '0' <= #[trigger] digits[i] <= '9'
            &&& process > 0 ==> digits[0] != '0'
            &&& process == 0 ==> digits == seq!['0']
        }),
{
    reveal_strlit(".tmp");
    let digits = decimal(process as nat);
    lemma_decimal_writes(process as nat);
    let name = temporary_name(process);
    assert(name.take(name.len() - 4) =~= digits);
    assert(name.skip(name.len() - 4) =~= seq!['.', 't', 'm', 'p']);
}

/// A write whose steps succeed creates, writes, syncs, renames and is done, in this order
/// and each once.
pub proof fn law_write_succeeds(results: Seq<bool>)
    requires
        forall|i: int| 0 <= i < results.len() ==> #[trigger] results[i],
    ensures
        reached(results) is Create <==> results.len() == 0,
        reached(results) is Write <==> results.len() == 1,
        reached(results) is Sync <==> results.len() == 2,
        reached(results) is Rename <==> results.len() == 3,
        reached(results) is Succeed <==> results.len() >= 4,
    decreases results.len(),
{
    if results.len() > 0 {
        let rest = results.drop_last();
        assert forall|i: int| 0 <= i < rest.len() implies #[trigger] rest[i] by {
            assert(results[i]);
        }
        law_write_succeeds(rest);
        assert(results[results.len() - 1]);
    }
}

/// A write whose first failing step comes at `at` fails. It is over at once where nothing
/// was created; else the next and only thing it does is to remove what it created, whether
/// or not that succeeds. A write that is done is not undone.
pub proof fn law_write_fails(results: Seq<bool>, at: int)
    requires
        0 <= at < results.len(),
        !results[at],
        forall|i: int| 0 <= i < at ==> #[trigger] results[i],
    ensures
        at == 0 ==> reached(results) is Fail,
        1 <= at <= 3 && results.len() == at + 1 ==> reached(results) is RemoveTemporary,
        1 <= at <= 3 && results.len() > at + 1 ==> reached(results) is Fail,
        at >= 4 ==> reached(results) is Succeed,
    decreases results.len(),
{
    let rest = results.drop_last();
    if results.len() == at + 1 {
        assert forall|i: int| 0 <= i < rest.len() implies #[trigger] rest[i] by {
            assert(results[i]);
        }
        law_write_succeeds(rest);
    } else {
        assert forall|i: int| 0 <= i < at implies #[trigger] rest[i] by {
            assert(results[i]);
        }
        law_write_fails(rest, at);
    }
}

/// What comes after the file is created, or is not, does not depend on its permissions.
pub proof fn law_mode_changes_no_step(mode: u32, other: u32, succeeded: bool)
    ensures
        following(WriteStep::Create { mode }, succeeded) == following(
            WriteStep::Create { mode: other },
            succeeded,
        ),
{
}

} // verus!
