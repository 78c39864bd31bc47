//! Log levels, the runtime level filter, and the byte framing of a log record
//! for a serial line.

use vstd::prelude::*;
use vstd::string::StringSliceAdditionalSpecFns;

verus! {

/// Severity of a log record, most severe first.
#[derive(Copy, Clone, Debug, PartialEq, Eq, Structural)]
pub enum Level {
    Error,
    Warn,
    Info,
    Debug,
    Trace,
}

impl Level {
    /// Position in the order of severity: `Error` is 0, `Trace` is 4.
    pub open spec fn rank(self) -> nat {
        match self {
            Level::Error => 0,
            Level::Warn => 1,
            Level::Info => 2,
            Level::Debug => 3,
            Level::Trace => 4,
        }
    }

    /// The position of this level in the order of severity.
    pub fn as_u8(self) -> (r: u8)
        ensures
            r == self.rank(),
    {
        match self {
            Level::Error => 0,
            Level::Warn => 1,
            Level::Info => 2,
            Level::Debug => 3,
            Level::Trace => 4,
        }
    }

    /// The one-letter tag of the level on a serial line.
    pub open spec fn tag(self) -> u8 {
        match self {
            Level::Error => 69,
            Level::Warn => 87,
            Level::Info => 73,
            Level::Debug => 68,
            Level::Trace => 84,
        }
    }

    /// The one-letter tag of the level.
    pub fn tag_byte(self) -> (r: u8)
        ensures
            r == self.tag(),
    {
        match self {
            Level::Error => 69,
            Level::Warn => 87,
            Level::Info => 73,
            Level::Debug => 68,
            Level::Trace => 84,
        }
    }
}

/// Which records pass: those at most as verbose as the minimum level.
pub struct LogFilter {
    pub min: Level,
}

impl LogFilter {
    /// A filter that lets `Info` and more severe records through.
    pub fn new() -> (f: LogFilter)
        ensures
            f.min == Level::Info,
    {
        LogFilter { min: Level::Info }
    }

    /// Sets the minimum level.
    pub fn set_level(&mut self, level: Level)
        ensures
            final(self).min == level,
    {
        self.min = level;
    }

    /// Whether a record at `level` passes.
    pub fn enabled(&self, level: Level) -> (r: bool)
        ensures
            r == (level.rank() <= self.min.rank()),
    {
        level.as_u8() <= self.min.as_u8()
    }
}

/// The decimal digits of `n` in ASCII, most significant first, without
/// leading zeros.
pub open spec fn decimal(n: nat) -> Seq<u8>
    decreases n,
{
    if n < 10 {
        seq![(48 + n) as u8]
    } else {
        decimal(n / 10).push((48 + n % 10) as u8)
    }
}

/// `s` with every line feed written as carriage return and line feed.
pub open spec fn crlf(s: Seq<u8>) -> Seq<u8>
    decreases s.len(),
{
    if s.len() == 0 {
        Seq::empty()
    } else if s.last() == 10 {
        crlf(s.drop_last()) + seq![13u8, 10u8]
    } else {
        crlf(s.drop_last()).push(s.last())
    }
}

/// A record on the serial line: `[T] file:line body` and a line end, where
/// `T` is the level's tag and line feeds in the file name and the body are
/// written as carriage return and line feed.
pub open spec fn serial_record(level: Level, file: Seq<u8>, line: u32, body: Seq<u8>) -> Seq<u8> {
    seq![91u8, level.tag(), 93u8, 32u8] + crlf(file) + seq![58u8] + decimal(line as nat) + seq![32u8]
        + crlf(body) + seq![13u8, 10u8]
}

/// The decimal digits of `n` in ASCII.
pub fn decimal_u32(n: u32) -> (r: Vec<u8>)
    ensures
        r@ == decimal(n as nat),
{
    let mut m = n;
    let mut digits: Vec<u8> = Vec::new();
    while m >= 10
        invariant
            decimal(n as nat) == decimal(m as nat) + digits@,
        decreases m,
    {
        let d = (m % 10) as u8 + 48;
        let ghost before = digits@;
        digits.insert(0, d);
        assert(decimal(m as nat) == decimal((m / 10) as nat).push(d));
        assert(decimal(m as nat) + before =~= decimal((m / 10) as nat) + digits@);
        m = m / 10;
    }
    let mut out: Vec<u8> = Vec::new();
    out.push(m as u8 + 48);
    out.append(&mut digits);
    assert(out@ =~= decimal(m as nat) + decimal(n as nat).subrange(decimal(m as nat).len() as int, decimal(n as nat).len() as int));
    out
}

/// Appends `s` to `out` with every line feed written as carriage return and
/// line feed.
fn push_crlf(out: &mut Vec<u8>, s: &[u8])
    ensures
        final(out)@ == old(out)@ + crlf(s@),
{
    let ghost start = out@;
    for i in 0..s.len()
        invariant
            out@ == start + crlf(s@.subrange(0, i as int)),
    {
        let b = s[i];
        let ghost prefix = s@.subrange(0, i as int);
        assert(s@.subrange(0, i + 1).drop_last() =~= prefix);
        if b == 10 {
            out.push(13);
            out.push(10);
            assert(out@ =~= start + crlf(s@.subrange(0, i + 1)));
        } else {
            out.push(b);
            assert(out@ =~= start + crlf(s@.subrange(0, i + 1)));
        }
    }
    assert(s@.subrange(0, s@.len() as int) =~= s@);
}

/// The bytes of a record at `level` for the serial line, or `None` when the
/// filter holds it back.
pub fn serial_frame(filter: &LogFilter, level: Level, file: &str, line: u32, body: &str) -> (r: Option<Vec<u8>>)
    ensures
        r is None <==> !(level.rank() <= filter.min.rank()),
        r matches Some(bytes) ==> bytes@ == serial_record(level, file.spec_bytes(), line, body.spec_bytes()),
{
    if !filter.enabled(level) {
        return None;
    }
    // "[T] file:line body\r\n" in ASCII
    let mut out: Vec<u8> = Vec::new();
    out.push(91);
    out.push(level.tag_byte());
    out.push(93);
    out.push(32);
    push_crlf(&mut out, file.as_bytes());
    out.push(58);
    let mut digits = decimal_u32(line);
    out.append(&mut digits);
    out.push(32);
    push_crlf(&mut out, body.as_bytes());
    out.push(13);
    out.push(10);
    assert(out@ =~= serial_record(level, file.spec_bytes(), line, body.spec_bytes()));
    Some(out)
}

} // verus!
