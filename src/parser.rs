use vstd::prelude::*;
use vstd::slice::slice_subrange;

verus! {

/// The module that a parser builds as it reads a wasm binary.
#[derive(Debug, Clone)]
pub struct Module {
    pub signatures: Vec<Vec<u8>>,
}

impl Module {
    pub fn new() -> (r: Self)
        ensures
            r.signatures@.len() == 0,
    {
        Module { signatures: Vec::new() }
    }
}

#[derive(Debug, Clone, PartialEq, Eq, Structural)]
pub enum Error {
    BufferEndReached,
    InvalidVaruint1,
    InvalidVaruint7,
    InvalidVarint7,
    InvalidVaruint32,
    InvalidVarint32,
    InvalidVarint64,
    InvalidValueType,
    InvalidImportType,
    InvalidMagicNumber,
    InvalidVersionNumber,
    SectionAlreadyDefined,
    UnsupportedSection,
    InvalidSectionId,
    SectionPayloadDoesNotMatchPayloadLength,
    IncompleteCustomSection,
    InvalidPayloadLengthInCustomSection,
    InvalidNameLengthInCustomSection,
    IncompleteTypeSection,
    InvalidPayloadLengthInTypeSection,
    InvalidEntryCountInTypeSection,
    EntriesDoNotMatchEntryCountInTypeSection,
    InvalidTypeInTypeSection,
    UnsupportedTypeInTypeSection,
    IncompleteImportEntry,
    InvalidModuleLengthInImportEntry,
    ModuleStringDoesNotMatchModuleLengthInImportEntry,
    InvalidFieldLengthInImportEntry,
    FieldStringDoesNotMatchFieldLengthInImportEntry,
    InvalidImportTypeInImportEntry,
    IncompleteFunctionType,
    InvalidParamCountInFunctionType,
    ParamsDoesNotMatchParamCountInFunctionType,
    InvalidParamTypeInFunctionType,
    InvalidReturnCountInFunctionType,
    InvalidReturnTypeInFunctionType,
    ReturnTypeDoesNotMatchReturnCountInFunctionType,
}

/// 128 raised to `k`: the weight of the `k`-th seven-bit group of a LEB128 number.
pub open spec fn pow128(k: nat) -> nat
    decreases k,
{
    if k == 0 {
        1
    } else {
        128 * pow128((k - 1) as nat)
    }
}

/// The number that the seven-bit groups of `s` spell, least significant group first.
pub open spec fn leb_value(s: Seq<u8>) -> nat
    decreases s.len(),
{
    if s.len() == 0 {
        0
    } else {
        leb_value(s.drop_last()) + (s.last() % 128) as nat * pow128((s.len() - 1) as nat)
    }
}

/// Scanning the bytes of `code` from `pos + k`, at most up to the `max`-th byte after `pos`:
/// the length of the LEB128 number at `pos` (up to and including its first byte below 0x80),
/// `-1` when the buffer ends before that byte, `0` when `max` bytes all carry the
/// continuation bit.
pub open spec fn leb_scan(code: Seq<u8>, pos: int, k: nat, max: nat) -> int
    decreases max - k,
{
    if k >= max {
        0
    } else if pos + k >= code.len() {
        -1
    } else if code[pos + k] < 128 {
        (k + 1) as int
    } else {
        leb_scan(code, pos, k + 1, max)
    }
}

/// The two's complement reading of the low 32 bits of `v`.
pub open spec fn i32_of_bits(v: int) -> int {
    let low = v % 0x1_0000_0000;
    if low < 0x8000_0000 {
        low as int
    } else {
        low - 0x1_0000_0000
    }
}

/// The value of a signed LEB128 number of `n` bytes whose groups spell `v` and whose last
/// byte is `last`: the sign bit of the last group is extended when `n < full` bytes were read.
pub open spec fn signed_leb(v: nat, n: nat, last: u8, full: nat) -> int {
    if n < full && (last % 128) >= 64 {
        v - pow128(n)
    } else {
        v as int
    }
}

pub proof fn lemma_pow128_mono(a: nat, b: nat)
    requires
        a <= b,
    ensures
        pow128(a) <= pow128(b),
    decreases b - a,
{
    if a < b {
        lemma_pow128_mono(a, (b - 1) as nat);
    }
}

proof fn lemma_pow128_nine()
    ensures
        pow128(9) == 0x8000_0000_0000_0000,
{
    lemma_pow128_values();
}

proof fn lemma_pow128_values()
    ensures
        pow128(4) == 0x1000_0000,
        pow128(5) == 0x8_0000_0000,
        pow128(8) == 0x100_0000_0000_0000,
        pow128(9) == 0x8000_0000_0000_0000,
{
    reveal_with_fuel(pow128, 10);
}

proof fn lemma_leb_push(s: Seq<u8>, b: u8)
    ensures
        leb_value(s.push(b)) == leb_value(s) + (b % 128) as nat * pow128(s.len()),
{
    assert(s.push(b).drop_last() =~= s);
}

proof fn lemma_leb_step(acc: nat, mult: nat, b: u8)
    requires
        acc < mult,
    ensures
        acc + (b % 128) as nat * mult < 128 * mult,
{
    assert((b % 128) as nat * mult <= 127 * mult) by (nonlinear_arith)
        requires
            (b % 128) <= 127,
    ;
}

/// How the scan of a LEB128 number ended.
#[derive(PartialEq, Eq, Structural)]
enum LebOutcome {
    Done,
    Truncated,
    Overlong,
}

fn pow128_exec(n: usize) -> (r: u64)
    requires
        n <= 9,
    ensures
        r == pow128(n as nat),
{
    let mut r: u64 = 1;
    let mut i: usize = 0;
    proof {
        lemma_pow128_mono(n as nat, 9);
        lemma_pow128_nine();
    }
    while i < n
        invariant
            i <= n <= 9,
            r == pow128(i as nat),
            pow128(n as nat) <= 0x8000_0000_0000_0000,
        decreases n - i,
    {
        proof {
            lemma_pow128_mono((i + 1) as nat, n as nat);
        }
        r = r * 128;
        i = i + 1;
    }
    r
}

/// The byte just before `cursor`.
fn byte_before(code: &Vec<u8>, cursor: usize) -> (r: u8)
    requires
        0 < cursor <= code@.len(),
    ensures
        r == code@[cursor - 1],
{
    code[cursor - 1]
}

/// Reading a one-bit unsigned integer at `p`: the result and the position after.
pub open spec fn spec_varuint1(c: Seq<u8>, p: int) -> (Result<bool, Error>, int) {
    if p < c.len() {
        (
            if c[p] == 1 {
                Ok(true)
            } else if c[p] == 0 {
                Ok(false)
            } else {
                Err(Error::InvalidVaruint1)
            },
            p + 1,
        )
    } else {
        (Err(Error::BufferEndReached), p)
    }
}

/// Reading a seven-bit unsigned integer at `p`.
pub open spec fn spec_varuint7(c: Seq<u8>, p: int) -> (Result<u8, Error>, int) {
    if p < c.len() {
        (
            if c[p] < 128 {
                Ok(c[p])
            } else {
                Err(Error::InvalidVaruint7)
            },
            p + 1,
        )
    } else {
        (Err(Error::BufferEndReached), p)
    }
}

/// Reading a seven-bit signed integer at `p`.
pub open spec fn spec_varint7(c: Seq<u8>, p: int) -> (Result<i8, Error>, int) {
    if p < c.len() {
        (
            if c[p] >= 128 {
                Err(Error::InvalidVarint7)
            } else if c[p] >= 64 {
                Ok((c[p] - 128) as i8)
            } else {
                Ok(c[p] as i8)
            },
            p + 1,
        )
    } else {
        (Err(Error::BufferEndReached), p)
    }
}

/// Reading a value type at `p`.
pub open spec fn spec_value_type(c: Seq<u8>, p: int) -> (Result<i8, Error>, int) {
    if p < c.len() {
        (
            if c[p] >= 128 {
                Err(Error::InvalidVarint7)
            } else if 0x7c <= c[p] <= 0x7f {
                Ok((c[p] - 128) as i8)
            } else {
                Err(Error::InvalidValueType)
            },
            p + 1,
        )
    } else {
        (Err(Error::BufferEndReached), p)
    }
}

/// Reading an unsigned LEB128 integer of at most five bytes at `p`.
pub open spec fn spec_varuint32(c: Seq<u8>, p: int) -> (Result<u32, Error>, int) {
    let n = leb_scan(c, p, 0, 5);
    if n > 0 {
        (Ok((leb_value(c.subrange(p, p + n)) % 0x1_0000_0000) as u32), p + n)
    } else if n < 0 {
        (Err(Error::BufferEndReached), c.len() as int)
    } else {
        (Err(Error::InvalidVaruint32), p + 5)
    }
}

/// Reading a signed LEB128 integer of at most five bytes at `p`.
pub open spec fn spec_varint32(c: Seq<u8>, p: int) -> (Result<i32, Error>, int) {
    let n = leb_scan(c, p, 0, 5);
    if n > 0 {
        (
            Ok(i32_of_bits(signed_leb(leb_value(c.subrange(p, p + n)), n as nat, c[p + n - 1], 5)) as i32),
            p + n,
        )
    } else if n < 0 {
        (Err(Error::BufferEndReached), c.len() as int)
    } else {
        (Err(Error::InvalidVarint32), p + 5)
    }
}

/// The error that a section reports for a failed read: `incomplete` when the buffer ended,
/// `invalid` for anything else.
pub open spec fn classify(e: Error, incomplete: Error, invalid: Error) -> Error {
    if e == Error::BufferEndReached {
        incomplete
    } else {
        invalid
    }
}

/// Reading `n` parameter types from `p`, for the function type that starts at `start`.
pub open spec fn spec_params(c: Seq<u8>, p: int, n: nat, start: usize) -> (
    Result<(), (Error, usize)>,
    int,
)
    decreases n,
{
    if n == 0 {
        (Ok(()), p)
    } else {
        let (t, q) = spec_value_type(c, p);
        match t {
            Err(e) => (
                Err(
                    (
                        classify(
                            e,
                            Error::IncompleteFunctionType,
                            Error::InvalidParamTypeInFunctionType,
                        ),
                        start,
                    ),
                ),
                q,
            ),
            Ok(_) => spec_params(c, q, (n - 1) as nat, start),
        }
    }
}

/// Reading a function type at `p`: a parameter count, the parameter types, a result count of
/// 0 or 1, and the result type.
pub open spec fn spec_func_type(c: Seq<u8>, p: int) -> (Result<(), (Error, usize)>, int) {
    let start = p as usize;
    let (pc, at1) = spec_varint32(c, p);
    match pc {
        Err(e) => (
            Err(
                (
                    classify(e, Error::IncompleteFunctionType, Error::InvalidParamCountInFunctionType),
                    start,
                ),
            ),
            at1,
        ),
        Ok(count) => {
            let (pr, at2) = spec_params(
                c,
                at1,
                if count > 0 {
                    count as nat
                } else {
                    0
                },
                start,
            );
            match pr {
                Err(x) => (Err(x), at2),
                Ok(_) => {
                    let (rc, at3) = spec_varuint1(c, at2);
                    match rc {
                        Err(e) => (
                            Err(
                                (
                                    classify(
                                        e,
                                        Error::IncompleteFunctionType,
                                        Error::InvalidReturnCountInFunctionType,
                                    ),
                                    start,
                                ),
                            ),
                            at3,
                        ),
                        Ok(false) => (Ok(()), at3),
                        Ok(true) => {
                            let (rt, at4) = spec_value_type(c, at3);
                            match rt {
                                Err(e) => (
                                    Err(
                                        (
                                            classify(
                                                e,
                                                Error::IncompleteFunctionType,
                                                Error::InvalidReturnTypeInFunctionType,
                                            ),
                                            start,
                                        ),
                                    ),
                                    at4,
                                ),
                                Ok(_) => (Ok(()), at4),
                            }
                        },
                    }
                },
            }
        },
    }
}

/// Reading `n` entries of the type section from `p`, for the section that starts at `start`.
pub open spec fn spec_type_entries(c: Seq<u8>, p: int, n: nat, start: usize) -> (
    Result<(), (Error, usize)>,
    int,
)
    decreases n,
{
    if n == 0 {
        (Ok(()), p)
    } else {
        let (t, q) = spec_varint7(c, p);
        match t {
            Err(e) => (
                Err(
                    (
                        classify(
                            e,
                            Error::EntriesDoNotMatchEntryCountInTypeSection,
                            Error::InvalidTypeInTypeSection,
                        ),
                        start,
                    ),
                ),
                q,
            ),
            Ok(form) => if form == -0x20 {
                let (f, q2) = spec_func_type(c, q);
                match f {
                    Err(x) => (Err(x), q2),
                    Ok(_) => spec_type_entries(c, q2, (n - 1) as nat, start),
                }
            } else {
                (Err((Error::UnsupportedTypeInTypeSection, start)), q)
            },
        }
    }
}

/// Reading the type section at `p`: a payload length, an entry count, and the entries.
pub open spec fn spec_type_section(c: Seq<u8>, p: int) -> (Result<(), (Error, usize)>, int) {
    let start = p as usize;
    let (len, at1) = spec_varuint32(c, p);
    match len {
        Err(e) => (
            Err(
                (
                    classify(e, Error::IncompleteTypeSection, Error::InvalidPayloadLengthInTypeSection),
                    start,
                ),
            ),
            at1,
        ),
        Ok(_) => {
            let (count, at2) = spec_varuint32(c, at1);
            match count {
                Err(e) => (
                    Err(
                        (
                            classify(
                                e,
                                Error::IncompleteTypeSection,
                                Error::InvalidEntryCountInTypeSection,
                            ),
                            start,
                        ),
                    ),
                    at2,
                ),
                Ok(n) => spec_type_entries(c, at2, n as nat, start),
            }
        },
    }
}

/// Reading a custom section at `p`: a payload length and a name length, then skipping the
/// name and the payload. A negative length is never there to skip.
pub open spec fn spec_custom_section(c: Seq<u8>, p: int) -> (Result<(), (Error, usize)>, int) {
    let start = p as usize;
    let (plen, at1) = spec_varint32(c, p);
    match plen {
        Err(e) => (
            Err(
                (
                    classify(
                        e,
                        Error::IncompleteCustomSection,
                        Error::InvalidPayloadLengthInCustomSection,
                    ),
                    start,
                ),
            ),
            at1,
        ),
        Ok(payload_len) => {
            let (nlen, at2) = spec_varint32(c, at1);
            match nlen {
                Err(e) => (
                    Err(
                        (
                            classify(
                                e,
                                Error::IncompleteCustomSection,
                                Error::InvalidEntryCountInTypeSection,
                            ),
                            start,
                        ),
                    ),
                    at2,
                ),
                Ok(name_len) => if name_len < 0 || at2 + name_len > c.len() {
                    (Err((Error::IncompleteCustomSection, start)), at2)
                } else if payload_len < 0 || at2 + name_len + payload_len > c.len() {
                    (Err((Error::IncompleteCustomSection, start)), at2 + name_len)
                } else {
                    (Ok(()), at2 + name_len + payload_len)
                },
            }
        },
    }
}

/// Reading the sections from `p` on, none of whose ids may be in `consumed`: each is a one-byte
/// id, then a custom (0) or type (1) section. The end of the buffer ends them.
pub open spec fn spec_sections(c: Seq<u8>, p: int, consumed: Seq<u8>) -> Result<(), (Error, usize)>
    decreases c.len() - p,
{
    let (id, at1) = spec_varuint7(c, p);
    match id {
        Err(e) => if e == Error::BufferEndReached {
            Ok(())
        } else {
            Err((Error::InvalidSectionId, p as usize))
        },
        Ok(sid) => if consumed.contains(sid) {
            Err((Error::SectionAlreadyDefined, p as usize))
        } else if sid > 1 {
            Err((Error::UnsupportedSection, p as usize))
        } else {
            let body = if sid == 0 {
                spec_custom_section(c, at1)
            } else {
                spec_type_section(c, at1)
            };
            match body.0 {
                Err(x) => Err(x),
                Ok(_) => if p < body.1 <= c.len() {
                    spec_sections(c, body.1, consumed.push(sid))
                } else {
                    Ok(())
                },
            }
        },
    }
}

fn contains_byte(v: &Vec<u8>, b: u8) -> (r: bool)
    ensures
        r == v@.contains(b),
{
    let mut i: usize = 0;
    while i < v.len()
        invariant
            i <= v@.len(),
            forall|k: int| 0 <= k < i ==> v@[k] != b,
        decreases v@.len() - i,
    {
        if v[i] == b {
            assert(v@[i as int] == b);
            return true;
        }
        i = i + 1;
    }
    false
}

/// A single-pass parser over a wasm binary.
#[derive(Debug, Clone)]
pub struct Parser<'a> {
    code: &'a Vec<u8>,
    cursor: usize,
    module: Module,
}

impl<'a> Parser<'a> {
    /// The bytes being parsed.
    pub closed spec fn bytes(&self) -> Seq<u8> {
        self.code@
    }

    /// The position of the next byte to read.
    pub closed spec fn pos(&self) -> int {
        self.cursor as int
    }

    pub closed spec fn wf(&self) -> bool {
        self.cursor <= self.code@.len()
    }

    pub fn new(code: &'a Vec<u8>) -> (r: Self)
        ensures
            r.wf(),
            r.bytes() == code@,
            r.pos() == 0,
    {
        Parser { code, cursor: 0, module: Module::new() }
    }

    /// Reads the next byte, if there is one.
    pub fn eat_byte(&mut self) -> (r: Option<u8>)
        requires
            old(self).wf(),
        ensures
            final(self).wf(),
            final(self).bytes() == old(self).bytes(),
            old(self).pos() < old(self).bytes().len() ==> r == Some(old(self).bytes()[old(self).pos()])
                && final(self).pos() == old(self).pos() + 1,
            old(self).pos() >= old(self).bytes().len() ==> r.is_none() && final(self).pos()
                == old(self).pos(),
    {
        let index = self.cursor;
        if index < self.code.len() {
            self.cursor = index + 1;
            return Some(self.code[index]);
        }
        None
    }

    /// Reads the next `range` bytes, if there are that many.
    pub fn eat_bytes(&mut self, range: usize) -> (r: Option<&'a [u8]>)
        requires
            old(self).wf(),
        ensures
            final(self).wf(),
            final(self).bytes() == old(self).bytes(),
            old(self).pos() + range <= old(self).bytes().len() ==> r.is_some() && r.unwrap()@
                == old(self).bytes().subrange(old(self).pos(), old(self).pos() + range)
                && final(self).pos() == old(self).pos() + range,
            old(self).pos() + range > old(self).bytes().len() ==> r.is_none() && final(self).pos()
                == old(self).pos(),
    {
        let start = self.cursor;
        if range > self.code.len() - start {
            return None;
        }
        let end = start + range;
        self.cursor = end;
        Some(slice_subrange(self.code.as_slice(), start, end))
    }

    /// Reads one byte as an unsigned 8-bit integer.
    pub fn uint8(&mut self) -> (r: Result<u8, Error>)
        requires
            old(self).wf(),
        ensures
            final(self).wf(),
            final(self).bytes() == old(self).bytes(),
            old(self).pos() < old(self).bytes().len() ==> r == Ok::<u8, Error>(
                old(self).bytes()[old(self).pos()],
            ) && final(self).pos() == old(self).pos() + 1,
            old(self).pos() >= old(self).bytes().len() ==> r == Err::<u8, Error>(
                Error::BufferEndReached,
            ) && final(self).pos() == old(self).pos(),
    {
        if let Some(byte) = self.eat_byte() {
            return Ok(byte);
        }
        Err(Error::BufferEndReached)
    }

    /// Checks that the binary starts with the wasm magic number and version 1.
    pub fn module_preamble(&mut self) -> (r: Result<(), Error>)
        requires
            old(self).wf(),
        ensures
            final(self).wf(),
            final(self).bytes() == old(self).bytes(),
            ({
                let (c, p) = (old(self).bytes(), old(self).pos());
                if p + 8 > c.len() {
                    r == Err::<(), Error>(Error::BufferEndReached)
                } else if !(c[p] == 0 && c[p + 1] == 0x61 && c[p + 2] == 0x73 && c[p + 3] == 0x6d) {
                    r == Err::<(), Error>(Error::InvalidMagicNumber) && final(self).pos() == p + 8
                } else if !(c[p + 4] == 1 && c[p + 5] == 0 && c[p + 6] == 0 && c[p + 7] == 0) {
                    r == Err::<(), Error>(Error::InvalidVersionNumber) && final(self).pos() == p + 8
                } else {
                    r == Ok::<(), Error>(()) && final(self).pos() == p + 8
                }
            }),
    {
        let magic_no = self.uint32()?;
        let version_no = match self.uint32() {
            Ok(v) => v,
            Err(e) => {
                return Err(e);
            },
        };
        if magic_no != 0x6d736100 {
            return Err(Error::InvalidMagicNumber);
        }
        if version_no != 0x1 {
            return Err(Error::InvalidVersionNumber);
        }
        Ok(())
    }

    /// Reads the sections that follow the preamble, up to the end of the buffer. Each section
    /// may occur once; custom and type sections are understood.
    pub fn module_sections(&mut self) -> (r: Result<(), (Error, usize)>)
        requires
            old(self).wf(),
        ensures
            final(self).wf(),
            final(self).bytes() == old(self).bytes(),
            r == spec_sections(old(self).bytes(), old(self).pos(), Seq::empty()),
    {
        let ghost c = self.bytes();
        let mut sections_consumed: Vec<u8> = Vec::new();
        loop
            invariant
                self.wf(),
                self.bytes() == c,
                c == old(self).bytes(),
                spec_sections(c, old(self).pos(), Seq::empty()) == spec_sections(
                    c,
                    self.pos(),
                    sections_consumed@,
                ),
            decreases c.len() - self.pos(),
        {
            let start_position = self.cursor;
            let section_id = match self.varuint7() {
                Ok(value) => value,
                Err(error) => {
                    if error == Error::BufferEndReached {
                        return Ok(());
                    } else {
                        return Err((Error::InvalidSectionId, start_position));
                    }
                },
            };
            if contains_byte(&sections_consumed, section_id) {
                return Err((Error::SectionAlreadyDefined, start_position));
            }
            let ghost before = sections_consumed@;
            sections_consumed.push(section_id);
            match section_id {
                0x00 => self.custom_section()?,
                0x01 => self.type_section()?,
                _ => {
                    return Err((Error::UnsupportedSection, start_position));
                },
            };
            assert(sections_consumed@ == before.push(section_id));
        }
    }

    /// Skips a custom section: its name and its payload.
    pub fn custom_section(&mut self) -> (r: Result<(), (Error, usize)>)
        requires
            old(self).wf(),
        ensures
            final(self).wf(),
            final(self).bytes() == old(self).bytes(),
            final(self).pos() >= old(self).pos(),
            (r, final(self).pos()) == spec_custom_section(old(self).bytes(), old(self).pos()),
    {
        let start_position = self.cursor;
        let payload_len = match self.varint32() {
            Ok(value) => value,
            Err(error) => {
                if error == Error::BufferEndReached {
                    return Err((Error::IncompleteCustomSection, start_position));
                } else {
                    return Err((Error::InvalidPayloadLengthInCustomSection, start_position));
                }
            },
        };
        let name_len = match self.varint32() {
            Ok(value) => value,
            Err(error) => {
                if error == Error::BufferEndReached {
                    return Err((Error::IncompleteCustomSection, start_position));
                } else {
                    return Err((Error::InvalidEntryCountInTypeSection, start_position));
                }
            },
        };
        if name_len < 0 {
            return Err((Error::IncompleteCustomSection, start_position));
        }
        if self.eat_bytes(name_len as usize).is_none() {
            return Err((Error::IncompleteCustomSection, start_position));
        }
        if payload_len < 0 {
            return Err((Error::IncompleteCustomSection, start_position));
        }
        if self.eat_bytes(payload_len as usize).is_none() {
            return Err((Error::IncompleteCustomSection, start_position));
        }
        Ok(())
    }

    /// Reads the type section: its payload length, its entry count, and as many function
    /// types.
    pub fn type_section(&mut self) -> (r: Result<(), (Error, usize)>)
        requires
            old(self).wf(),
        ensures
            final(self).wf(),
            final(self).bytes() == old(self).bytes(),
            final(self).pos() >= old(self).pos(),
            (r, final(self).pos()) == spec_type_section(old(self).bytes(), old(self).pos()),
    {
        let ghost c = self.bytes();
        let start_position = self.cursor;
        let _payload_len = match self.varuint32() {
            Ok(value) => value,
            Err(error) => {
                if error == Error::BufferEndReached {
                    return Err((Error::IncompleteTypeSection, start_position));
                } else {
                    return Err((Error::InvalidPayloadLengthInTypeSection, start_position));
                }
            },
        };
        let entry_count = match self.varuint32() {
            Ok(value) => value,
            Err(error) => {
                if error == Error::BufferEndReached {
                    return Err((Error::IncompleteTypeSection, start_position));
                } else {
                    return Err((Error::InvalidEntryCountInTypeSection, start_position));
                }
            },
        };
        let mut i: u32 = 0;
        while i < entry_count
            invariant
                self.wf(),
                self.bytes() == c,
                c == old(self).bytes(),
                start_position == old(self).pos(),
                self.pos() >= old(self).pos(),
                i <= entry_count,
                spec_type_section(c, old(self).pos()) == spec_type_entries(
                    c,
                    self.pos(),
                    (entry_count - i) as nat,
                    start_position,
                ),
            decreases entry_count - i,
        {
            let type_id = match self.varint7() {
                Ok(value) => value,
                Err(error) => {
                    if error == Error::BufferEndReached {
                        return Err((Error::EntriesDoNotMatchEntryCountInTypeSection, start_position));
                    } else {
                        return Err((Error::InvalidTypeInTypeSection, start_position));
                    }
                },
            };
            if type_id == -0x20 {
                self.func_type()?;
            } else {
                return Err((Error::UnsupportedTypeInTypeSection, start_position));
            }
            i = i + 1;
        }
        Ok(())
    }

    /// Reads a function type: its parameter types and its result type, if it has one.
    pub fn func_type(&mut self) -> (r: Result<(), (Error, usize)>)
        requires
            old(self).wf(),
        ensures
            final(self).wf(),
            final(self).bytes() == old(self).bytes(),
            final(self).pos() >= old(self).pos(),
            (r, final(self).pos()) == spec_func_type(old(self).bytes(), old(self).pos()),
    {
        let ghost c = self.bytes();
        let start_position = self.cursor;
        let param_count = match self.varint32() {
            Ok(value) => value,
            Err(error) => {
                if error == Error::BufferEndReached {
                    return Err((Error::IncompleteFunctionType, start_position));
                } else {
                    return Err((Error::InvalidParamCountInFunctionType, start_position));
                }
            },
        };
        let ghost at1 = self.pos();
        let ghost n: nat = if param_count > 0 {
            param_count as nat
        } else {
            0
        };
        let mut i: i32 = 0;
        while i < param_count
            invariant
                self.wf(),
                self.bytes() == c,
                c == old(self).bytes(),
                start_position == old(self).pos(),
                self.pos() >= old(self).pos(),
                0 <= i <= n,
                n == (if param_count > 0 {
                    param_count as nat
                } else {
                    0
                }),
                spec_varint32(c, old(self).pos()) == (Ok::<i32, Error>(param_count), at1),
                spec_params(c, at1, n, start_position) == spec_params(
                    c,
                    self.pos(),
                    (n - i) as nat,
                    start_position,
                ),
            decreases param_count - i,
        {
            match self.value_type() {
                Ok(_) => {},
                Err(error) => {
                    if error == Error::BufferEndReached {
                        return Err((Error::IncompleteFunctionType, start_position));
                    } else {
                        return Err((Error::InvalidParamTypeInFunctionType, start_position));
                    }
                },
            }
            i = i + 1;
        }
        let ghost at2 = self.pos();
        assert(spec_params(c, at1, n, start_position) == (Ok::<(), (Error, usize)>(()), at2));
        let return_count = match self.varuint1() {
            Ok(value) => value,
            Err(error) => {
                if error == Error::BufferEndReached {
                    return Err((Error::IncompleteFunctionType, start_position));
                } else {
                    assert(spec_varuint1(c, at2).0 == Err::<bool, Error>(error));
                    return Err((Error::InvalidReturnCountInFunctionType, start_position));
                }
            },
        };
        if return_count {
            match self.value_type() {
                Ok(_) => {},
                Err(error) => {
                    if error == Error::BufferEndReached {
                        return Err((Error::IncompleteFunctionType, start_position));
                    } else {
                        return Err((Error::InvalidReturnTypeInFunctionType, start_position));
                    }
                },
            }
        }
        Ok(())
    }

    /// Reads a value type: the signed codes -1, -2, -3, -4 of i32, i64, f32 and f64.
    pub fn value_type(&mut self) -> (r: Result<i8, Error>)
        requires
            old(self).wf(),
        ensures
            final(self).wf(),
            final(self).bytes() == old(self).bytes(),
            (r, final(self).pos() as int) == spec_value_type(old(self).bytes(), old(self).pos()),
    {
        let value = self.varint7()?;
        if value == -0x01 || value == -0x02 || value == -0x03 || value == -0x04 {
            Ok(value)
        } else {
            Err(Error::InvalidValueType)
        }
    }

    /// Reads the kind of an import: 1 to 4 for function, table, memory and global.
    pub fn external_kind(&mut self) -> (r: Result<u8, Error>)
        requires
            old(self).wf(),
        ensures
            final(self).wf(),
            final(self).bytes() == old(self).bytes(),
            ({
                let (c, p) = (old(self).bytes(), old(self).pos());
                if p < c.len() {
                    final(self).pos() == p + 1 && r == (if 1 <= c[p] <= 4 {
                        Ok::<u8, Error>(c[p])
                    } else {
                        Err::<u8, Error>(Error::InvalidImportType)
                    })
                } else {
                    r == Err::<u8, Error>(Error::BufferEndReached) && final(self).pos() == p
                }
            }),
    {
        let value = self.uint8()?;
        if value == 0x01 || value == 0x02 || value == 0x03 || value == 0x04 {
            Ok(value)
        } else {
            Err(Error::InvalidImportType)
        }
    }

    /// Reads a one-bit unsigned LEB128 integer: a byte that is 0 or 1.
    pub fn varuint1(&mut self) -> (r: Result<bool, Error>)
        requires
            old(self).wf(),
        ensures
            final(self).wf(),
            final(self).bytes() == old(self).bytes(),
            (r, final(self).pos() as int) == spec_varuint1(old(self).bytes(), old(self).pos()),
    {
        if let Some(byte) = self.eat_byte() {
            return match byte {
                1 => Ok(true),
                0 => Ok(false),
                _ => Err(Error::InvalidVaruint1),
            };
        }
        Err(Error::BufferEndReached)
    }

    /// Reads a seven-bit unsigned LEB128 integer: a byte below 0x80.
    pub fn varuint7(&mut self) -> (r: Result<u8, Error>)
        requires
            old(self).wf(),
        ensures
            final(self).wf(),
            final(self).bytes() == old(self).bytes(),
            (r, final(self).pos() as int) == spec_varuint7(old(self).bytes(), old(self).pos()),
    {
        if let Some(byte) = self.eat_byte() {
            if byte >= 0x80 {
                return Err(Error::InvalidVaruint7);
            }
            return Ok(byte);
        }
        Err(Error::BufferEndReached)
    }

    /// Reads a seven-bit signed LEB128 integer: a byte below 0x80 whose bit 6 is the sign.
    pub fn varint7(&mut self) -> (r: Result<i8, Error>)
        requires
            old(self).wf(),
        ensures
            final(self).wf(),
            final(self).bytes() == old(self).bytes(),
            (r, final(self).pos() as int) == spec_varint7(old(self).bytes(), old(self).pos()),
    {
        if let Some(byte) = self.eat_byte() {
            if byte >= 0x80 {
                return Err(Error::InvalidVarint7);
            }
            if byte >= 0x40 {
                let v: i8 = (byte as i8) - 64 - 64;
                return Ok(v);
            }
            return Ok(byte as i8);
        }
        Err(Error::BufferEndReached)
    }

    /// Reads an unsigned LEB128 integer of at most five bytes, keeping its low 32 bits.
    pub fn varuint32(&mut self) -> (r: Result<u32, Error>)
        requires
            old(self).wf(),
        ensures
            final(self).wf(),
            final(self).bytes() == old(self).bytes(),
            (r, final(self).pos() as int) == spec_varuint32(old(self).bytes(), old(self).pos()),
    {
        let ghost c = self.bytes();
        let ghost p = self.pos();
        let (outcome, acc, _n) = self.leb_groups(5);
        match outcome {
            LebOutcome::Done => Ok((acc % 0x1_0000_0000) as u32),
            LebOutcome::Truncated => Err(Error::BufferEndReached),
            LebOutcome::Overlong => Err(Error::InvalidVaruint32),
        }
    }

    /// Reads a signed LEB128 integer of at most five bytes, keeping its low 32 bits.
    pub fn varint32(&mut self) -> (r: Result<i32, Error>)
        requires
            old(self).wf(),
        ensures
            final(self).wf(),
            final(self).bytes() == old(self).bytes(),
            (r, final(self).pos() as int) == spec_varint32(old(self).bytes(), old(self).pos()),
    {
        let ghost c = self.bytes();
        let ghost p = self.pos();
        let (outcome, acc, n) = self.leb_groups(5);
        match outcome {
            LebOutcome::Done => {
                let last = byte_before(self.code, self.cursor);
                proof {
                    lemma_pow128_values();
                    lemma_pow128_mono(n as nat, 5);
                }
                if n < 5 && last % 128 >= 64 {
                    proof {
                        lemma_pow128_mono(n as nat, 4);
                    }
                    Ok((acc as i64 - pow128_exec(n) as i64) as i32)
                } else {
                    let low: u64 = acc % 0x1_0000_0000;
                    if low < 0x8000_0000 {
                        Ok(low as i32)
                    } else {
                        Ok((low as i64 - 0x1_0000_0000) as i32)
                    }
                }
            },
            LebOutcome::Truncated => Err(Error::BufferEndReached),
            LebOutcome::Overlong => Err(Error::InvalidVarint32),
        }
    }

    /// Reads a signed LEB128 integer of at most nine bytes.
    pub fn varint64(&mut self) -> (r: Result<i64, Error>)
        requires
            old(self).wf(),
        ensures
            final(self).wf(),
            final(self).bytes() == old(self).bytes(),
            ({
                let (c, p) = (old(self).bytes(), old(self).pos());
                let n = leb_scan(c, p, 0, 9);
                if n > 0 {
                    r.is_ok() && r.unwrap() as int == signed_leb(
                        leb_value(c.subrange(p, p + n)),
                        n as nat,
                        c[p + n - 1],
                        9,
                    ) && final(self).pos() == p + n
                } else if n < 0 {
                    r == Err::<i64, Error>(Error::BufferEndReached) && final(self).pos() == c.len()
                } else {
                    r == Err::<i64, Error>(Error::InvalidVarint64) && final(self).pos() == p + 9
                }
            }),
    {
        let ghost c = self.bytes();
        let ghost p = self.pos();
        let (outcome, acc, n) = self.leb_groups(9);
        match outcome {
            LebOutcome::Done => {
                let last = byte_before(self.code, self.cursor);
                proof {
                    lemma_pow128_values();
                    lemma_pow128_mono(n as nat, 9);
                }
                if n < 9 && last % 128 >= 64 {
                    proof {
                        lemma_pow128_mono(n as nat, 8);
                    }
                    Ok((acc as i64) - (pow128_exec(n) as i64))
                } else {
                    Ok(acc as i64)
                }
            },
            LebOutcome::Truncated => Err(Error::BufferEndReached),
            LebOutcome::Overlong => Err(Error::InvalidVarint64),
        }
    }

    /// Reads the seven-bit groups of a LEB128 number of at most `max` bytes. Returns how the
    /// scan ended, the number that the groups read spell, and how many bytes were read.
    fn leb_groups(&mut self, max: usize) -> (r: (LebOutcome, u64, usize))
        requires
            old(self).wf(),
            1 <= max <= 9,
        ensures
            final(self).wf(),
            final(self).bytes() == old(self).bytes(),
            ({
                let (c, p) = (old(self).bytes(), old(self).pos());
                let n = leb_scan(c, p, 0, max as nat);
                &&& n > 0 ==> r.0 == LebOutcome::Done && r.1 == leb_value(c.subrange(p, p + n))
                    && r.2 == n && final(self).pos() == p + n && 1 <= n <= max
                    && r.1 < pow128(n as nat)
                &&& n < 0 ==> r.0 == LebOutcome::Truncated && final(self).pos() == c.len()
                &&& n == 0 ==> r.0 == LebOutcome::Overlong && final(self).pos() == p + max
            }),
    {
        let ghost c = self.bytes();
        let ghost p = self.pos();
        let mut acc: u64 = 0;
        let mut mult: u64 = 1;
        let mut k: usize = 0;
        proof {
            lemma_pow128_mono(max as nat, 9);
            lemma_pow128_nine();
        }
        while k < max
            invariant
                self.wf(),
                self.bytes() == c,
                c == old(self).bytes(),
                p == old(self).pos(),
                0 <= p <= c.len(),
                1 <= max <= 9,
                k <= max,
                self.pos() == p + k,
                p + k <= c.len(),
                leb_scan(c, p, 0, max as nat) == leb_scan(c, p, k as nat, max as nat),
                acc == leb_value(c.subrange(p, p + k)),
                mult == pow128(k as nat),
                acc < mult,
                pow128(max as nat) <= 0x8000_0000_0000_0000,
            decreases max - k,
        {
            let byte = match self.eat_byte() {
                Some(b) => b,
                None => {
                    return (LebOutcome::Truncated, acc, k);
                },
            };
            proof {
                lemma_leb_push(c.subrange(p, p + k), byte);
                assert(c.subrange(p, p + k).push(byte) =~= c.subrange(p, p + k + 1));
                lemma_leb_step(acc as nat, mult as nat, byte);
                lemma_pow128_mono((k + 1) as nat, max as nat);
            }
            acc = acc + (byte % 128) as u64 * mult;
            if byte < 0x80 {
                return (LebOutcome::Done, acc, k + 1);
            }
            mult = mult * 128;
            k = k + 1;
        }
        (LebOutcome::Overlong, acc, k)
    }

    /// Reads two bytes as a little-endian unsigned 16-bit integer.
    pub fn uint16(&mut self) -> (r: Result<u16, Error>)
        requires
            old(self).wf(),
        ensures
            final(self).wf(),
            final(self).bytes() == old(self).bytes(),
            ({
                let (c, p) = (old(self).bytes(), old(self).pos());
                if p + 2 <= c.len() {
                    r == Ok::<u16, Error>((c[p] + 256 * c[p + 1]) as u16) && final(self).pos() == p
                        + 2
                } else {
                    r == Err::<u16, Error>(Error::BufferEndReached) && final(self).pos() == p
                }
            }),
    {
        if let Some(bytes) = self.eat_bytes(2) {
            let result: u16 = bytes[0] as u16 + 256 * (bytes[1] as u16);
            return Ok(result);
        }
        Err(Error::BufferEndReached)
    }

    /// Reads four bytes as a little-endian unsigned 32-bit integer.
    pub fn uint32(&mut self) -> (r: Result<u32, Error>)
        requires
            old(self).wf(),
        ensures
            final(self).wf(),
            final(self).bytes() == old(self).bytes(),
            ({
                let (c, p) = (old(self).bytes(), old(self).pos());
                if p + 4 <= c.len() {
                    r == Ok::<u32, Error>(
                        (c[p] + 0x100 * c[p + 1] + 0x1_0000 * c[p + 2] + 0x100_0000 * c[p + 3]) as u32,
                    ) && final(self).pos() == p + 4
                } else {
                    r == Err::<u32, Error>(Error::BufferEndReached) && final(self).pos() == p
                }
            }),
    {
        if let Some(bytes) = self.eat_bytes(4) {
            let result: u32 = bytes[0] as u32 + 0x100 * (bytes[1] as u32) + 0x1_0000 * (
            bytes[2] as u32) + 0x100_0000 * (bytes[3] as u32);
            return Ok(result);
        }
        Err(Error::BufferEndReached)
    }
}

} // verus!
