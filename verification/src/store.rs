//! Keys under which the rows of a table are later stored: the row's action
//! label, its timestamp, and a sequence number that tells rows of one
//! timestamp apart.

use vstd::prelude::*;
use vstd::string::StringExecFns;

verus! {

/// The character of a decimal digit.
pub open spec fn digit_char(d: nat) -> char {
    if d == 0 {
        '0'
    } else if d == 1 {
        '1'
    } else if d == 2 {
        '2'
    } else if d == 3 {
        '3'
    } else if d == 4 {
        '4'
    } else if d == 5 {
        '5'
    } else if d == 6 {
        '6'
    } else if d == 7 {
        '7'
    } else if d == 8 {
        '8'
    } else {
        '9'
    }
}

/// The decimal digits of `n`, most significant first, without leading zeros.
pub open spec fn decimal(n: nat) -> Seq<char>
    decreases n,
{
    if n < 10 {
        seq![digit_char(n)]
    } else {
        decimal(n / 10).push(digit_char(n % 10))
    }
}

/// `count` zeros.
pub open spec fn zeros(count: nat) -> Seq<char> {
    Seq::new(count, |i: int| '0')
}

/// The decimal digits of `n`, with zeros in front up to `width` digits; a
/// number with more digits is written in full.
pub open spec fn zero_padded(n: nat, width: nat) -> Seq<char> {
    let digits = decimal(n);
    if digits.len() < width {
        zeros((width - digits.len()) as nat) + digits
    } else {
        digits
    }
}

/// The key of a row.
pub open spec fn key_text(event_action: Seq<char>, formatted_time: Seq<char>, sequence: nat) -> Seq<
    char,
> {
    event_action + seq!['_'] + formatted_time + zero_padded(sequence, 5)
}

/// How many digits a number has, up to four; from ten thousand on, five or
/// more.
pub proof fn lemma_decimal_len(n: nat)
    ensures
        1 <= decimal(n).len(),
        n < 10 ==> decimal(n).len() == 1,
        10 <= n < 100 ==> decimal(n).len() == 2,
        100 <= n < 1000 ==> decimal(n).len() == 3,
        1000 <= n < 10000 ==> decimal(n).len() == 4,
        10000 <= n ==> decimal(n).len() >= 5,
    decreases n,
{
    if n >= 10 {
        lemma_decimal_len(n / 10);
    }
}

/// The character of the decimal digit `d`.
fn digit_of(d: u32) -> (c: char)
    requires
        d < 10,
    ensures
        c == digit_char(d as nat),
{
    if d == 0 {
        '0'
    } else if d == 1 {
        '1'
    } else if d == 2 {
        '2'
    } else if d == 3 {
        '3'
    } else if d == 4 {
        '4'
    } else if d == 5 {
        '5'
    } else if d == 6 {
        '6'
    } else if d == 7 {
        '7'
    } else if d == 8 {
        '8'
    } else {
        '9'
    }
}

/// Appends the decimal digits of `n` to `out`.
fn push_decimal(out: &mut String, n: u32)
    ensures
        final(out)@ == old(out)@ + decimal(n as nat),
    decreases n,
{
    if n >= 10 {
        push_decimal(out, n / 10);
    }
    out.push(digit_of(n % 10));
    assert(out@ =~= old(out)@ + decimal(n as nat));
}

/// The sequence number as it stands in a key: in decimal, with zeros in
/// front up to five digits.
pub fn sequence_text(n: u32) -> (text: String)
    ensures
        text@ == zero_padded(n as nat, 5),
{
    let mut text = String::new();
    proof {
        lemma_decimal_len(n as nat);
    }
    let pad: usize = if n < 10 {
        4
    } else if n < 100 {
        3
    } else if n < 1000 {
        2
    } else if n < 10000 {
        1
    } else {
        0
    };
    let mut i: usize = 0;
    while i < pad
        invariant
            i <= pad,
            text@ == zeros(i as nat),
        decreases pad - i,
    {
        text.push('0');
        i += 1;
        assert(text@ =~= zeros(i as nat));
    }
    push_decimal(&mut text, n);
    proof {
        if pad == 0 {
            assert(text@ =~= decimal(n as nat));
        }
    }
    text
}

/// The key of a row: the action label, an underscore, the formatted
/// timestamp, and the sequence number padded to five digits.
pub fn store_key(event_action: &str, formatted_time: &str, sequence: u32) -> (key: String)
    ensures
        key@ == key_text(event_action@, formatted_time@, sequence as nat),
{
    let mut key = event_action.to_owned();
    proof {
        reveal_strlit("_");
    }
    key.append("_");
    key.append(formatted_time);
    let digits = sequence_text(sequence);
    key.append(digits.as_str());
    key
}

/// Where the numbering of rows stands: the timestamp of the row before, and
/// the number that the next row gets if it has the same timestamp.
#[derive(Clone, Debug, PartialEq, Eq)]
pub struct KeySequence {
    pub previous_time: String,
    pub counter: u32,
}

/// A `KeySequence` as plain values.
pub struct KeySequenceView {
    pub previous_time: Seq<char>,
    pub counter: nat,
}

impl View for KeySequence {
    type V = KeySequenceView;

    open spec fn view(&self) -> KeySequenceView {
        KeySequenceView { previous_time: self.previous_time@, counter: self.counter as nat }
    }
}

/// The number of a row with timestamp `time`: the counter where the row
/// before had the same timestamp, else zero.
pub open spec fn sequence_at(state: KeySequenceView, time: Seq<char>) -> nat {
    if state.previous_time == time {
        state.counter
    } else {
        0
    }
}

impl KeySequence {
    /// The numbering before the first row: no timestamp yet, counter at zero.
    pub fn new() -> (state: KeySequence)
        ensures
            state@.previous_time == Seq::<char>::empty(),
            state@.counter == 0,
    {
        KeySequence { previous_time: String::new(), counter: 0 }
    }

    /// Numbers the next row and gives its key.
    ///
    /// The row gets number zero where its timestamp differs from that of the
    /// row before, else the counter. The numbering then remembers the
    /// timestamp and counts one up. `time` is the timestamp as rows are
    /// compared by, `formatted_time` the timestamp as it stands in the key.
    /// Gives `None`, and changes nothing, where the row's number is the
    /// largest that the counter can hold, so that it could not count up.
    pub fn next_key(&mut self, event_action: &str, time: &str, formatted_time: &str) -> (r: Option<
        String,
    >)
        ensures
            match r {
                Some(key) => {
                    &&& sequence_at(old(self)@, time@) < u32::MAX
                    &&& key@ == key_text(
                        event_action@,
                        formatted_time@,
                        sequence_at(old(self)@, time@),
                    )
                    &&& final(self)@.previous_time == time@
                    &&& final(self)@.counter == sequence_at(old(self)@, time@) + 1
                },
                None => sequence_at(old(self)@, time@) == u32::MAX && *final(self) == *old(self),
            },
    {
        let current = time.to_owned();
        let sequence: u32 = if self.previous_time == current {
            self.counter
        } else {
            0
        };
        if sequence == u32::MAX {
            return None;
        }
        self.previous_time = current;
        self.counter = sequence + 1;
        Some(store_key(event_action, formatted_time, sequence))
    }
}

} // verus!
