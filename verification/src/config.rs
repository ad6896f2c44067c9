//! The timing table and code table of one remote.

use vstd::prelude::*;

verus! {

/// The shape of one symbol on the carrier: the carrier is on for `.0`
/// microseconds and then off for `.1` microseconds.
#[derive(Clone, Copy, Debug, PartialEq, Eq, Structural)]
pub struct Bits(pub u32, pub u32);

/// A named code of the remote.
#[derive(Clone, Debug)]
pub struct Code {
    /// The name by which the code is asked for.
    pub signal: String,
    /// The number that is sent.
    pub code: u32,
}

/// Everything that determines what a remote sends: the bit width, the
/// pulses of the timing table, the repeat count, the address and the codes.
#[derive(Clone, Debug)]
pub struct RemoteConfig {
    /// Number of bits sent for the address and for each code, at most 32.
    pub bits: u8,
    /// The pulse that opens a frame.
    pub header: Bits,
    /// The pulse that stands for a bit that is set.
    pub one: Bits,
    /// The pulse that stands for a bit that is clear.
    pub zero: Bits,
    /// The pulse that closes a frame.
    pub gap: Bits,
    /// Number of times a frame is sent.
    pub repeat: u8,
    /// Device address, sent before every code.
    pub address: u32,
    /// The codes by name. Where a name occurs more than once, the first
    /// entry counts.
    pub codes: Vec<Code>,
}

/// Entry `i` of `codes` is named `signal` and no earlier entry is.
pub open spec fn is_first_match(codes: Seq<Code>, signal: Seq<char>, i: int) -> bool {
    &&& 0 <= i < codes.len()
    &&& codes[i].signal@ == signal
    &&& forall|j: int| 0 <= j < i ==> (#[trigger] codes[j]).signal@ != signal
}

/// The code that `signal` names in `codes`: that of the first entry with
/// this name, or `None` where no entry has it.
pub open spec fn code_of(codes: Seq<Code>, signal: Seq<char>) -> Option<u32> {
    if exists|i: int| is_first_match(codes, signal, i) {
        Some(codes[choose|i: int| is_first_match(codes, signal, i)].code)
    } else {
        None
    }
}

/// Among the first `n` entries of `codes`, either one is the first match of
/// `signal` or none is named `signal`.
proof fn lemma_first_match_or_none(codes: Seq<Code>, signal: Seq<char>, n: int)
    requires
        0 <= n <= codes.len(),
    ensures
        (exists|i: int| i < n && is_first_match(codes, signal, i)) || (forall|j: int|
            0 <= j < n ==> (#[trigger] codes[j]).signal@ != signal),
    decreases n,
{
    if n > 0 {
        lemma_first_match_or_none(codes, signal, n - 1);
        if forall|j: int| 0 <= j < n - 1 ==> (#[trigger] codes[j]).signal@ != signal {
            if codes[n - 1].signal@ == signal {
                assert(is_first_match(codes, signal, n - 1));
            }
        }
    }
}

/// The first match wins: where entry `i` is named `signal` and no earlier
/// entry is, `signal` names the code of entry `i`, whatever follows it.
pub proof fn lemma_first_match_wins(codes: Seq<Code>, signal: Seq<char>, i: int)
    requires
        0 <= i < codes.len(),
        codes[i].signal@ == signal,
        forall|j: int| 0 <= j < i ==> (#[trigger] codes[j]).signal@ != signal,
    ensures
        code_of(codes, signal) == Some(codes[i].code),
{
    assert(is_first_match(codes, signal, i));
}

/// A signal has no code exactly where no entry is named as it is.
pub proof fn lemma_unknown_signal(codes: Seq<Code>, signal: Seq<char>)
    ensures
        code_of(codes, signal) is None <==> forall|i: int|
            0 <= i < codes.len() ==> (#[trigger] codes[i]).signal@ != signal,
{
    lemma_first_match_or_none(codes, signal, codes.len() as int);
}

impl RemoteConfig {
    /// The bit width does not exceed the 32 bits of an address or a code,
    /// so that every bit to send is a bit of the word. A width of zero and
    /// a repeat count of zero are well formed too: then no data bit, or no
    /// frame, is sent.
    pub open spec fn well_formed(&self) -> bool {
        self.bits <= 32
    }

    /// Tells whether the configuration is well formed.
    pub fn is_well_formed(&self) -> (ok: bool)
        ensures
            ok == self.well_formed(),
    {
        self.bits <= 32
    }

    /// Looks `signal` up in the code table. Names are compared exactly.
    pub fn lookup(&self, signal: &str) -> (code: Option<u32>)
        ensures
            code == code_of(self.codes@, signal@),
    {
        let wanted = signal.to_owned();
        let mut i: usize = 0;
        while i < self.codes.len()
            invariant
                i <= self.codes.len(),
                wanted@ == signal@,
                forall|j: int| 0 <= j < i ==> (#[trigger] self.codes@[j]).signal@ != signal@,
            decreases self.codes.len() - i,
        {
            if self.codes[i].signal == wanted {
                assert(is_first_match(self.codes@, signal@, i as int));
                return Some(self.codes[i].code);
            }
            i += 1;
        }
        None
    }
}

} // verus!
