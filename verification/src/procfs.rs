//! What the kernel's per-process files say, once their bytes are read.

use vstd::prelude::*;
use vstd::string::StringSliceAdditionalSpecFns;
use vstd::utf8::{encode_utf8, valid_utf8};

use crate::ascii::{
    all_digits, digits_value, is_digit, leading_u64, lemma_digits_len_of_digits, lemma_position,
    lemma_position_is, position, whole_i32,
};

verus! {

/// The byte that separates the fields of a thread's scheduling statistics.
pub const SPACE: u8 = 32;

/// The byte after which a command line names a part of the process.
pub const COLON: u8 = 58;

/// The byte that ends each argument of a command line.
pub const NUL: u8 = 0;

/// What `String::from_utf8_lossy` makes of `bytes`: their text, with the
/// replacement character in place of every part that is not UTF-8.
pub uninterp spec fn utf8_lossy(bytes: Seq<u8>) -> Seq<char>;

/// `atoi::atoi::<u64>`: the number that `text` begins with, if it begins
/// with one that a `u64` holds.
#[verifier::external_body]
fn atoi_u64(text: &[u8]) -> (number: Option<u64>)
    ensures
        number == leading_u64(text@),
{
    atoi::atoi::<u64>(text)
}

/// `str::parse::<i32>`: the number that `text` is, if it is a decimal `i32`
/// and nothing else.
#[verifier::external_body]
fn parse_i32(text: &str) -> (number: Option<i32>)
    ensures
        number == whole_i32(text.spec_bytes()),
{
    text.parse::<i32>().ok()
}

/// `stringzilla::sz::find` with a needle of one byte: the index at which
/// `byte` first occurs in `haystack`, if it occurs.
#[verifier::external_body]
fn find_byte(haystack: &[u8], byte: u8) -> (found: Option<usize>)
    ensures
        found == first_index(haystack@, byte),
{
    stringzilla::sz::find(haystack, [byte])
}

/// `String::from_utf8_lossy`: the text of `bytes`. Bytes that are UTF-8 are
/// kept as they are.
#[verifier::external_body]
fn from_utf8_lossy(bytes: &[u8]) -> (text: String)
    ensures
        text@ == utf8_lossy(bytes@),
        valid_utf8(bytes@) ==> encode_utf8(text@) == bytes@,
{
    String::from_utf8_lossy(bytes).into_owned()
}

/// The index at which `byte` first occurs in `text`, if it occurs.
pub open spec fn first_index(text: Seq<u8>, byte: u8) -> Option<usize> {
    if position(text, byte) < text.len() {
        Some(position(text, byte) as usize)
    } else {
        None
    }
}

/// The first field of a record whose fields are separated by single spaces.
pub open spec fn first_field(record: Seq<u8>) -> Seq<u8> {
    record.take(position(record, SPACE) as int)
}

/// The cumulative on-CPU time that a thread's scheduling statistics begin
/// with, and zero where they begin with no such number.
pub open spec fn cpu_time_of(schedstat: Seq<u8>) -> u64 {
    match leading_u64(first_field(schedstat)) {
        Some(cputime) => cputime,
        None => 0,
    }
}

/// The thread ids among the entry names of a task directory, in the order of
/// the names. A name that is no decimal `i32` is passed over.
pub open spec fn thread_ids_of(names: Seq<String>) -> Seq<i32>
    decreases names.len(),
{
    if names.len() == 0 {
        Seq::empty()
    } else {
        let before = thread_ids_of(names.drop_last());
        match whole_i32(encode_utf8(names.last()@)) {
            Some(tid) => before.push(tid),
            None => before,
        }
    }
}

/// How many bytes of a command line make up the process name: those before
/// the first `:`, or else those before the first zero byte, or else all.
pub open spec fn process_name_len(cmdline: Seq<u8>) -> nat {
    if position(cmdline, COLON) < cmdline.len() {
        position(cmdline, COLON)
    } else {
        position(cmdline, NUL)
    }
}

/// Reads the cumulative on-CPU time of a thread, in nanoseconds, from the
/// content of its scheduling statistics. Content that was not there, or that
/// begins with no number, gives zero.
pub fn get_thread_cpu_time(schedstat: &[u8]) -> (cputime: u64)
    ensures
        cputime == cpu_time_of(schedstat@),
{
    let mut end: usize = 0;
    while end < schedstat.len() && schedstat[end] != SPACE
        invariant
            0 <= end <= schedstat.len(),
            forall|i: int| 0 <= i < end ==> schedstat@[i] != SPACE,
        decreases schedstat.len() - end,
    {
        end += 1;
    }
    proof {
        lemma_position_is(schedstat@, SPACE, end as int);
    }
    let field = &schedstat[0..end];
    match atoi_u64(field) {
        Some(cputime) => cputime,
        None => 0,
    }
}

/// Scheduling statistics that begin with a number of digits and a space give
/// the number that the digits spell, if a `u64` holds it.
pub proof fn theorem_cpu_time_of_record(digits: Seq<u8>, rest: Seq<u8>)
    requires
        digits.len() > 0,
        all_digits(digits),
        digits_value(digits) <= u64::MAX,
    ensures
        cpu_time_of(digits + seq![SPACE] + rest) == digits_value(digits),
        cpu_time_of(digits) == digits_value(digits),
{
    let record = digits + seq![SPACE] + rest;
    assert forall|i: int| 0 <= i < digits.len() implies record[i] != SPACE && digits[i]
        != SPACE by {
        assert(is_digit(digits[i]));
    }
    lemma_position_is(record, SPACE, digits.len() as int);
    lemma_position_is(digits, SPACE, digits.len() as int);
    assert(first_field(record) =~= digits);
    assert(first_field(digits) =~= digits);
    lemma_digits_len_of_digits(digits, Seq::empty());
    assert(digits + Seq::<u8>::empty() =~= digits);
    assert(digits.take(digits.len() as int) =~= digits);
}

/// Picks the thread ids out of the entry names of a task directory.
pub fn get_thread_ids(names: &Vec<String>) -> (tids: Vec<i32>)
    ensures
        tids@ == thread_ids_of(names@),
{
    let mut tids: Vec<i32> = Vec::new();
    let mut i: usize = 0;
    while i < names.len()
        invariant
            0 <= i <= names.len(),
            tids@ == thread_ids_of(names@.take(i as int)),
        decreases names.len() - i,
    {
        proof {
            assert(names@.take(i + 1).drop_last() =~= names@.take(i as int));
        }
        if let Some(tid) = parse_i32(names[i].as_str()) {
            tids.push(tid);
        }
        i += 1;
    }
    proof {
        assert(names@.take(names.len() as int) =~= names@);
    }
    tids
}

/// Finds where the process name ends in the first bytes of a command line.
pub fn get_process_name_len(cmdline: &[u8]) -> (len: usize)
    ensures
        len == process_name_len(cmdline@),
        len <= cmdline.len(),
{
    let all = cmdline.len();
    proof {
        lemma_position(cmdline@, COLON);
        lemma_position(cmdline@, NUL);
    }
    match find_byte(cmdline, COLON) {
        Some(colon) => colon,
        None => match find_byte(cmdline, NUL) {
            Some(zero) => zero,
            None => all,
        },
    }
}

/// The name of a process, from the first bytes of its command line.
pub fn get_process_name(cmdline: &[u8]) -> (name: String)
    ensures
        name@ == utf8_lossy(cmdline@.take(process_name_len(cmdline@) as int)),
        valid_utf8(cmdline@.take(process_name_len(cmdline@) as int)) ==> encode_utf8(name@)
            == cmdline@.take(process_name_len(cmdline@) as int),
{
    let len = get_process_name_len(cmdline);
    let bytes = &cmdline[0..len];
    from_utf8_lossy(bytes)
}

} // verus!
