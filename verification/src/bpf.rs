//! Packet filters as `tcpdump -ddd` prints them: a count, then four integers for
//! each instruction, all separated by white space.

use vstd::prelude::*;

use crate::afpacket::{AfpacketError, SockFilter};
use crate::numbers;
use crate::numbers::{parse_i64, IntErrorKind};
use crate::os_error::OsError;
use crate::text;
use crate::text::{lossy, lossy_text, push_decimal, push_quoted, push_signed, split_words, trim};

verus! {

/// What a word stands for as a 64-bit integer.
pub open spec fn number(word: Seq<char>) -> Result<int, IntErrorKind> {
    numbers::read_integer(word, true, i64::MAX as int)
}

/// The position of the first word, from `from` on, that is no integer; the number
/// of words where there is none.
pub open spec fn first_bad(words: Seq<Seq<char>>, from: int) -> int
    decreases words.len() - from,
{
    if from < 0 || from >= words.len() {
        words.len() as int
    } else if number(words[from]) is Err {
        from
    } else {
        first_bad(words, from + 1)
    }
}

/// The instruction made of four integers. Each field keeps the low bits of its
/// integer.
pub open spec fn instruction(code: int, jt: int, jf: int, k: int) -> SockFilter {
    SockFilter {
        code: (code % 0x1_0000) as u16,
        jt: (jt % 0x100) as u8,
        jf: (jf % 0x100) as u8,
        k: (k % 0x1_0000_0000) as u32,
    }
}

/// The program that `n` instructions in `words` make, after the count.
pub open spec fn instructions(words: Seq<Seq<char>>, n: nat) -> Seq<SockFilter> {
    Seq::new(
        n,
        |i: int|
            instruction(
                number(words[4 * i + 1])->Ok_0,
                number(words[4 * i + 2])->Ok_0,
                number(words[4 * i + 3])->Ok_0,
                number(words[4 * i + 4])->Ok_0,
            ),
    )
}

/// The program that `output` holds, or what is wrong with it.
pub open spec fn program(output: Seq<char>) -> Result<Seq<SockFilter>, Seq<char>> {
    let words = text::words(output);
    let bad = first_bad(words, 0);
    if bad < words.len() {
        Err(
            "non-numeric token "@ + text::debug_text(words[bad]) + " in tcpdump output: "@ + number(
                words[bad],
            )->Err_0.text(),
        )
    } else if words.len() == 0 {
        Err("tcpdump -ddd produced empty output"@)
    } else {
        let n = number(words[0])->Ok_0;
        if n < 0 {
            Err("tcpdump -ddd reported negative instruction count "@ + text::signed_decimal(n))
        } else if 4 * n + 1 > usize::MAX {
            Err(
                "tcpdump -ddd: header count "@ + text::decimal(n as nat)
                    + " too large to validate"@,
            )
        } else if words.len() != 4 * n + 1 {
            Err(
                "tcpdump -ddd: expected "@ + text::decimal((4 * n + 1) as nat) + " ints (header "@
                    + text::decimal(n as nat) + " * 4 + 1), got "@ + text::decimal(words.len()),
            )
        } else {
            Ok(instructions(words, n as nat))
        }
    }
}

/// Whether `e` says that the filter on the interface could not be compiled, for
/// the reason.
pub open spec fn is_bpf_error(
    e: AfpacketError,
    iface: Seq<char>,
    filter: Seq<char>,
    reason: Seq<char>,
) -> bool {
    e matches AfpacketError::BpfCompile { iface: i, filter: f, reason: r } && i@ == iface && f@
        == filter && r@ == reason
}

fn bpf_error(iface: &str, filter: &str, reason: String) -> (e: AfpacketError)
    ensures
        is_bpf_error(e, iface@, filter@, reason@),
{
    AfpacketError::BpfCompile { iface: iface.to_owned(), filter: filter.to_owned(), reason }
}

fn low_bits(code: i64, jt: i64, jf: i64, k: i64) -> (r: SockFilter)
    ensures
        r == instruction(code as int, jt as int, jf as int, k as int),
{
    proof {
        lemma_low_bits(code);
        lemma_low_bits(jt);
        lemma_low_bits(jf);
        lemma_low_bits(k);
    }
    SockFilter { code: code as u16, jt: jt as u8, jf: jf as u8, k: k as u32 }
}

proof fn lemma_low_bits(v: i64)
    ensures
        v as u8 == v as int % 0x100,
        v as u16 == v as int % 0x1_0000,
        v as u32 == v as int % 0x1_0000_0000,
{
    assert(v as u8 == v % 0x100) by (bit_vector);
    assert(v as u16 == v % 0x1_0000) by (bit_vector);
    assert(v as u32 == v % 0x1_0000_0000) by (bit_vector);
}

/// Passing over integers does not move the first word that is none.
proof fn lemma_first_bad(words: Seq<Seq<char>>, i: int)
    requires
        0 <= i <= words.len(),
        forall|k: int| 0 <= k < i ==> number(#[trigger] words[k]) is Ok,
    ensures
        first_bad(words, 0) == first_bad(words, i),
    decreases i,
{
    if i > 0 {
        lemma_first_bad(words, i - 1);
        assert(number(words[i - 1]) is Ok);
    }
}

/// Reads the output of `tcpdump -ddd`. The errors carry the interface and the
/// filter that the output belongs to.
pub fn parse_tcpdump_ddd_for(iface: &str, filter: &str, output: &str) -> (r: Result<
    Vec<SockFilter>,
    AfpacketError,
>)
    ensures
        match r {
            Ok(v) => program(output@) == Ok::<Seq<SockFilter>, Seq<char>>(v@),
            Err(e) => program(output@) matches Err(reason) && is_bpf_error(
                e,
                iface@,
                filter@,
                reason,
            ),
        },
{
    let tokens = split_words(output);
    let ghost words = text::words(output@);
    let mut nums: Vec<i64> = Vec::new();
    let mut i: usize = 0;
    while i < tokens.len()
        invariant
            i <= tokens.len(),
            nums.len() == i,
            words == text::words(output@),
            tokens@.len() == words.len(),
            forall|k: int| 0 <= k < tokens@.len() ==> (#[trigger] tokens@[k])@ == words[k],
            forall|k: int|
                0 <= k < i ==> number(#[trigger] words[k]) == Ok::<int, IntErrorKind>(
                    nums@[k] as int,
                ),
        decreases tokens.len() - i,
    {
        assert(tokens@[i as int]@ == words[i as int]);
        match parse_i64(tokens[i].as_str()) {
            Ok(n) => nums.push(n),
            Err(e) => {
                proof {
                    lemma_first_bad(words, i as int);
                }
                let mut reason = "non-numeric token ".to_owned();
                push_quoted(&mut reason, tokens[i].as_str());
                reason.append(" in tcpdump output: ");
                reason.append(e.describe());
                return Err(bpf_error(iface, filter, reason));
            },
        }
        i = i + 1;
    }
    proof {
        lemma_first_bad(words, i as int);
    }
    if nums.len() == 0 {
        return Err(
            bpf_error(iface, filter, "tcpdump -ddd produced empty output".to_owned()),
        );
    }
    let count_signed: i64 = nums[0];
    assert(number(words[0]) == Ok::<int, IntErrorKind>(count_signed as int));
    if count_signed < 0 {
        let mut reason = "tcpdump -ddd reported negative instruction count ".to_owned();
        push_signed(&mut reason, count_signed as i128);
        return Err(bpf_error(iface, filter, reason));
    }
    let wanted: u128 = count_signed as u128 * 4 + 1;
    if wanted > usize::MAX as u128 {
        let mut reason = "tcpdump -ddd: header count ".to_owned();
        push_decimal(&mut reason, count_signed as u128);
        reason.append(" too large to validate");
        return Err(bpf_error(iface, filter, reason));
    }
    let count: usize = count_signed as usize;
    let expected_len: usize = count * 4 + 1;
    if nums.len() != expected_len {
        let mut reason = "tcpdump -ddd: expected ".to_owned();
        push_decimal(&mut reason, expected_len as u128);
        reason.append(" ints (header ");
        push_decimal(&mut reason, count as u128);
        reason.append(" * 4 + 1), got ");
        push_decimal(&mut reason, nums.len() as u128);
        return Err(bpf_error(iface, filter, reason));
    }
    let mut filters: Vec<SockFilter> = Vec::new();
    let mut j: usize = 0;
    while j < count
        invariant
            j <= count,
            nums.len() == 4 * count + 1,
            nums.len() == words.len(),
            filters@ =~= instructions(words, j as nat),
            forall|k: int|
                0 <= k < nums@.len() ==> number(#[trigger] words[k]) == Ok::<int, IntErrorKind>(
                    nums@[k] as int,
                ),
        decreases count - j,
    {
        let f = low_bits(nums[4 * j + 1], nums[4 * j + 2], nums[4 * j + 3], nums[4 * j + 4]);
        assert(number(words[4 * j + 1]) is Ok);
        assert(number(words[4 * j + 2]) is Ok);
        assert(number(words[4 * j + 3]) is Ok);
        assert(number(words[4 * j + 4]) is Ok);
        filters.push(f);
        j = j + 1;
    }
    Ok(filters)
}

/// Reads the output of `tcpdump -ddd` where the interface and the filter are not
/// known.
pub fn parse_tcpdump_ddd(output: &str) -> (r: Result<Vec<SockFilter>, AfpacketError>)
    ensures
        match r {
            Ok(v) => program(output@) == Ok::<Seq<SockFilter>, Seq<char>>(v@),
            Err(e) => program(output@) matches Err(reason) && is_bpf_error(
                e,
                "<unknown>"@,
                "<unknown>"@,
                reason,
            ),
        },
{
    parse_tcpdump_ddd_for("<unknown>", "<unknown>", output)
}

/// Where `tcpdump` lies.
pub open spec fn tcpdump_path() -> Seq<char> {
    "/usr/sbin/tcpdump"@
}

/// Where `tcpdump` lies.
pub fn default_tcpdump() -> (r: &'static str)
    ensures
        r@ == tcpdump_path(),
{
    "/usr/sbin/tcpdump"
}

/// The arguments with which `tcpdump` compiles `filter` for `iface`.
pub fn tcpdump_args(iface: &str, filter: &str) -> (r: Vec<String>)
    ensures
        r@.len() == 4,
        r@[0]@ == "-i"@,
        r@[1]@ == iface@,
        r@[2]@ == "-ddd"@,
        r@[3]@ == filter@,
{
    let mut args: Vec<String> = Vec::new();
    args.push("-i".to_owned());
    args.push(iface.to_owned());
    args.push("-ddd".to_owned());
    args.push(filter.to_owned());
    args
}

/// How a run of `tcpdump` went.
#[derive(Debug)]
pub enum TcpdumpRun {
    /// It could not be started.
    NotStarted { source: OsError },
    /// It ended with a status that is no success; `status` describes it.
    Failed { status: String, stderr: Vec<u8> },
    /// It ended well.
    Finished { stdout: Vec<u8> },
}

/// Whether the text of a run's output is as its bytes say: what is UTF-8 stands for its
/// characters.
pub open spec fn reads_as_text(output: Seq<u8>) -> bool {
    vstd::utf8::valid_utf8(output) ==> lossy_text(output) == vstd::utf8::decode_utf8(output)
}

/// Makes a filter out of a run of the `tcpdump` at `tcpdump_path`.
pub fn compile_bpf_with(
    tcpdump_path: &str,
    iface: &str,
    filter: &str,
    run: TcpdumpRun,
) -> (r: Result<Vec<SockFilter>, AfpacketError>)
    ensures
        match run {
            TcpdumpRun::NotStarted { source } => r matches Err(
                AfpacketError::BpfCompileSpawn { tcpdump, source: s },
            ) && tcpdump@ == tcpdump_path@ && s == source,
            TcpdumpRun::Failed { status, stderr } => reads_as_text(stderr@) && (r matches Err(e)
                && is_bpf_error(
                e,
                iface@,
                filter@,
                "tcpdump exited with "@ + status@ + ": "@ + text::trimmed_back(
                    text::trimmed_front(lossy_text(stderr@)),
                ),
            )),
            TcpdumpRun::Finished { stdout } => reads_as_text(stdout@) && match r {
                Ok(v) => program(lossy_text(stdout@)) == Ok::<Seq<SockFilter>, Seq<char>>(v@),
                Err(e) => program(lossy_text(stdout@)) matches Err(reason) && is_bpf_error(
                    e,
                    iface@,
                    filter@,
                    reason,
                ),
            },
        },
{
    match run {
        TcpdumpRun::NotStarted { source } => Err(
            AfpacketError::BpfCompileSpawn { tcpdump: tcpdump_path.to_owned(), source },
        ),
        TcpdumpRun::Failed { status, stderr } => {
            let mut reason = "tcpdump exited with ".to_owned();
            reason.append(status.as_str());
            reason.append(": ");
            let said = lossy(stderr.as_slice());
            let tail = trim(said.as_str());
            reason.append(tail.as_str());
            Err(bpf_error(iface, filter, reason))
        },
        TcpdumpRun::Finished { stdout } => {
            let output = lossy(stdout.as_slice());
            parse_tcpdump_ddd_for(iface, filter, output.as_str())
        },
    }
}

/// Makes a filter out of a run of the `tcpdump` that lies in its usual place.
pub fn compile_bpf(iface: &str, filter: &str, run: TcpdumpRun) -> (r: Result<
    Vec<SockFilter>,
    AfpacketError,
>)
    ensures
        match run {
            TcpdumpRun::NotStarted { source } => r matches Err(
                AfpacketError::BpfCompileSpawn { tcpdump, source: s },
            ) && tcpdump@ == tcpdump_path() && s == source,
            TcpdumpRun::Failed { status, stderr } => reads_as_text(stderr@) && (r matches Err(e)
                && is_bpf_error(
                e,
                iface@,
                filter@,
                "tcpdump exited with "@ + status@ + ": "@ + text::trimmed_back(
                    text::trimmed_front(lossy_text(stderr@)),
                ),
            )),
            TcpdumpRun::Finished { stdout } => reads_as_text(stdout@) && match r {
                Ok(v) => program(lossy_text(stdout@)) == Ok::<Seq<SockFilter>, Seq<char>>(v@),
                Err(e) => program(lossy_text(stdout@)) matches Err(reason) && is_bpf_error(
                    e,
                    iface@,
                    filter@,
                    reason,
                ),
            },
        },
{
    compile_bpf_with(default_tcpdump(), iface, filter, run)
}

/// The numbers in decimal, each followed by a separator.
pub open spec fn listing(numbers: Seq<int>, separators: Seq<char>) -> Seq<char>
    decreases numbers.len(),
{
    if numbers.len() == 0 {
        seq![]
    } else {
        text::signed_decimal(numbers[0]) + seq![separators[0]] + listing(
            numbers.drop_first(),
            separators.drop_first(),
        )
    }
}

/// The numbers that list a program: how many instructions it has, and four for each.
pub open spec fn numbers_of(prog: Seq<SockFilter>) -> Seq<int> {
    Seq::new(
        (4 * prog.len() + 1) as nat,
        |i: int|
            if i == 0 {
                prog.len() as int
            } else {
                let f = prog[(i - 1) / 4];
                if (i - 1) % 4 == 0 {
                    f.code as int
                } else if (i - 1) % 4 == 1 {
                    f.jt as int
                } else if (i - 1) % 4 == 2 {
                    f.jf as int
                } else {
                    f.k as int
                }
            },
    )
}

/// A program that is listed reads back as itself, every field of it, whatever white
/// space stands between the numbers.
pub proof fn law_program_reads_back(prog: Seq<SockFilter>, separators: Seq<char>)
    requires
        4 * prog.len() + 1 <= usize::MAX,
        prog.len() <= i64::MAX,
        separators.len() == 4 * prog.len() + 1,
        forall|i: int|
            0 <= i < separators.len() ==> text::ascii_blank(#[trigger] separators[i]),
    ensures
        program(listing(numbers_of(prog), separators)) == Ok::<Seq<SockFilter>, Seq<char>>(prog),
{
    let nums = numbers_of(prog);
    let words = text::words(listing(nums, separators));
    lemma_numbers_of_listing(nums, separators);
    lemma_first_bad(words, words.len() as int);
    lemma_instructions_of_numbers(prog, words);
    assert(number(words[0]) == Ok::<int, IntErrorKind>(nums[0]));
}

/// The words of a listing read as its numbers.
proof fn lemma_numbers_of_listing(nums: Seq<int>, separators: Seq<char>)
    requires
        separators.len() == nums.len(),
        forall|i: int| 0 <= i < nums.len() ==> i64::MIN <= #[trigger] nums[i] <= i64::MAX,
        forall|i: int|
            0 <= i < separators.len() ==> text::ascii_blank(#[trigger] separators[i]),
    ensures
        ({
            let words = text::words(listing(nums, separators));
            &&& words.len() == nums.len()
            &&& forall|i: int|
                0 <= i < nums.len() ==> number(#[trigger] words[i]) == Ok::<int, IntErrorKind>(
                    nums[i],
                )
        }),
{
    let words = text::words(listing(nums, separators));
    lemma_words_of_listing(nums, separators);
    assert forall|i: int| 0 <= i < nums.len() implies number(#[trigger] words[i]) == Ok::<
        int,
        IntErrorKind,
    >(nums[i]) by {
        numbers::law_decimal_reads_back(nums[i], true, i64::MAX as int);
    }
}

/// Words that read as the numbers of a program make its instructions.
proof fn lemma_instructions_of_numbers(prog: Seq<SockFilter>, words: Seq<Seq<char>>)
    requires
        words.len() == 4 * prog.len() + 1,
        forall|i: int|
            0 <= i < words.len() ==> number(#[trigger] words[i]) == Ok::<int, IntErrorKind>(
                numbers_of(prog)[i],
            ),
    ensures
        instructions(words, prog.len()) == prog,
{
    let n = prog.len();
    assert forall|i: int| 0 <= i < n implies #[trigger] instructions(words, n)[i] == prog[i] by {
        let f = prog[i];
        assert(number(words[4 * i + 1])->Ok_0 == f.code);
        assert(number(words[4 * i + 2])->Ok_0 == f.jt);
        assert(number(words[4 * i + 3])->Ok_0 == f.jf);
        assert(number(words[4 * i + 4])->Ok_0 == f.k);
    }
    assert(instructions(words, n) =~= prog);
}

/// The words of a listing are its numbers.
proof fn lemma_words_of_listing(nums: Seq<int>, separators: Seq<char>)
    requires
        separators.len() == nums.len(),
        forall|i: int|
            0 <= i < separators.len() ==> text::ascii_blank(#[trigger] separators[i]),
    ensures
        text::words(listing(nums, separators)) == nums.map_values(
            |n: int| text::signed_decimal(n),
        ),
    decreases nums.len(),
{
    let want = nums.map_values(|n: int| text::signed_decimal(n));
    if nums.len() == 0 {
        assert(text::words(listing(nums, separators)) =~= want);
    } else {
        let n = nums[0];
        let word = text::signed_decimal(n);
        let rest = listing(nums.drop_first(), separators.drop_first());
        numbers::lemma_decimal(if n < 0 {
            -n
        } else {
            n
        } as nat);
        assert forall|i: int| 0 <= i < word.len() implies !text::ascii_blank(
            #[trigger] word[i],
        ) by {
            let digits = text::decimal(if n < 0 {
                -n
            } else {
                n
            } as nat);
            if n < 0 && i > 0 {
                assert(word[i] == digits[i - 1]);
                assert(numbers::is_digit(digits[i - 1]));
            } else if n >= 0 {
                assert(numbers::is_digit(digits[i]));
            }
        }
        text::lemma_words_first(word, separators[0], rest);
        lemma_words_of_listing(nums.drop_first(), separators.drop_first());
        assert(text::words(listing(nums, separators)) =~= want);
    }
}

/// An instruction keeps of each of its four integers as many low bits as its field has:
/// what it leaves off is a multiple of what the field can count to.
pub proof fn law_fields_keep_low_bits(code: int, jt: int, jf: int, k: int)
    ensures
        ({
            let f = instruction(code, jt, jf, k);
            &&& (code - f.code) % 0x1_0000 == 0
            &&& (jt - f.jt) % 0x100 == 0
            &&& (jf - f.jf) % 0x100 == 0
            &&& (k - f.k) % 0x1_0000_0000 == 0
        }),
        0 <= code < 0x1_0000 ==> instruction(code, jt, jf, k).code == code,
        0 <= jt < 0x100 ==> instruction(code, jt, jf, k).jt == jt,
        0 <= jf < 0x100 ==> instruction(code, jt, jf, k).jf == jf,
        0 <= k < 0x1_0000_0000 ==> instruction(code, jt, jf, k).k == k,
{
}

/// What a listing must be: integers only, the first of which says how many instructions
/// follow, of four integers each, code and two jumps and constant. Each way of not being so
/// is told apart, and the first word that is no integer is named.
pub proof fn law_what_a_listing_must_be(output: Seq<char>, bad: int, i: int)
    ensures
        ({
            let words = text::words(output);
            let all = forall|k: int| 0 <= k < words.len() ==> number(#[trigger] words[k]) is Ok;
            let n = number(words[0])->Ok_0;
            let r = program(output);
            &&& words.len() == 0 ==> r == Err::<Seq<SockFilter>, Seq<char>>(
                "tcpdump -ddd produced empty output"@,
            )
            &&& 0 <= bad < words.len() && number(words[bad]) is Err && (forall|k: int|
                0 <= k < bad ==> number(#[trigger] words[k]) is Ok) ==> r == Err::<
                Seq<SockFilter>,
                Seq<char>,
            >(
                "non-numeric token "@ + text::debug_text(words[bad]) + " in tcpdump output: "@
                    + number(words[bad])->Err_0.text(),
            )
            &&& all && words.len() > 0 && n < 0 ==> r == Err::<Seq<SockFilter>, Seq<char>>(
                "tcpdump -ddd reported negative instruction count "@ + text::signed_decimal(n),
            )
            &&& all && words.len() > 0 && n >= 0 && 4 * n + 1 > usize::MAX ==> r == Err::<
                Seq<SockFilter>,
                Seq<char>,
            >("tcpdump -ddd: header count "@ + text::decimal(n as nat) + " too large to validate"@)
            &&& all && words.len() > 0 && 0 <= 4 * n + 1 <= usize::MAX && n >= 0 && words.len() != 4
                * n + 1 ==> r == Err::<Seq<SockFilter>, Seq<char>>(
                "tcpdump -ddd: expected "@ + text::decimal((4 * n + 1) as nat) + " ints (header "@
                    + text::decimal(n as nat) + " * 4 + 1), got "@ + text::decimal(words.len()),
            )
            &&& all && n >= 0 && words.len() == 4 * n + 1 && words.len() <= usize::MAX ==> {
                &&& r is Ok
                &&& r->Ok_0.len() == n
                &&& 0 <= i < n ==> {
                    let f = r->Ok_0[i];
                    &&& (number(words[4 * i + 1])->Ok_0 - f.code) % 0x1_0000 == 0
                    &&& (number(words[4 * i + 2])->Ok_0 - f.jt) % 0x100 == 0
                    &&& (number(words[4 * i + 3])->Ok_0 - f.jf) % 0x100 == 0
                    &&& (number(words[4 * i + 4])->Ok_0 - f.k) % 0x1_0000_0000 == 0
                }
            }
        }),
{
    let words = text::words(output);
    if 0 <= bad < words.len() && (forall|k: int| 0 <= k < bad ==> number(#[trigger] words[k]) is Ok) {
        lemma_first_bad(words, bad);
    }
    if forall|k: int| 0 <= k < words.len() ==> number(#[trigger] words[k]) is Ok {
        lemma_first_bad(words, words.len() as int);
        let n = number(words[0])->Ok_0;
        if n >= 0 && words.len() == 4 * n + 1 && words.len() <= usize::MAX && 0 <= i < n {
            law_fields_keep_low_bits(
                number(words[4 * i + 1])->Ok_0,
                number(words[4 * i + 2])->Ok_0,
                number(words[4 * i + 3])->Ok_0,
                number(words[4 * i + 4])->Ok_0,
            );
        }
    }
}

/// The integers of a listing are those of 64 bits, with a sign or without.
pub proof fn law_integers_of_a_listing(word: Seq<char>)
    ensures
        number(word) == numbers::read_integer(word, true, 0x7fff_ffff_ffff_ffff),
        tcpdump_path() == "/usr/sbin/tcpdump"@,
{
}

/// An error of compiling a filter names the interface and the filter, each as itself, and
/// the reason.
pub proof fn law_errors_name_the_filter(
    e: AfpacketError,
    iface: Seq<char>,
    filter: Seq<char>,
    reason: Seq<char>,
)
    requires
        is_bpf_error(e, iface, filter, reason),
    ensures
        e matches AfpacketError::BpfCompile { iface: i, filter: f, reason: r } && i@ == iface && f@
            == filter && r@ == reason,
        e.text() == "BPF compile failed for filter "@ + text::debug_text(filter)
            + " on interface "@ + text::debug_text(iface) + ": "@ + reason,
{
}

} // verus!
