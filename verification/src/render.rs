//! The report of a transaction for a human reader. It is meant to be read,
//! not to be parsed back.

use vstd::prelude::*;
use vstd::string::StringExecFns;
use crate::hextext::{hex_text, to_hex};
use crate::input::{InputModel, TransactionInput};
use crate::transaction::{BitcoinTransaction, TransactionModel};
use crate::wire::u32_be;

verus! {

/// The character for a number below ten.
pub open spec fn decimal_digit(d: nat) -> char
    recommends
        d < 10,
{
    (0x30 + d) as char
}

/// The number in decimal notation, without leading zeros.
pub open spec fn decimal_text(n: nat) -> Seq<char>
    decreases n,
{
    if n < 10 {
        seq![decimal_digit(n)]
    } else {
        decimal_text(n / 10).push(decimal_digit(n % 10))
    }
}

/// The lines of the report that describe the input at position `index`: its
/// position, the index of the output it spends, the length of its script,
/// the script in hexadecimal and the sequence number as eight hexadecimal
/// digits.
pub open spec fn input_text(index: nat, x: InputModel) -> Seq<char> {
    "  Input: "@ + decimal_text(index) + ":::\nPrevious Output Vout: "@ + decimal_text(
        x.previous_output.vout as nat,
    ) + "\nScript Sig Length: "@ + decimal_text(x.script_sig.len()) + "\nScript Sig: "@
        + hex_text(x.script_sig) + "\n  Sequence: 0x"@ + hex_text(u32_be(x.sequence)) + "\n"@
}

/// The lines for all the inputs, in list order.
pub open spec fn inputs_text(xs: Seq<InputModel>) -> Seq<char>
    decreases xs.len(),
{
    if xs.len() == 0 {
        Seq::empty()
    } else {
        inputs_text(xs.drop_last()) + input_text((xs.len() - 1) as nat, xs.last())
    }
}

/// The head of the report: version, lock time and the number of inputs.
pub open spec fn header_text(t: TransactionModel) -> Seq<char> {
    "Bitcoin Transaction:::\n Version: "@ + decimal_text(t.version as nat) + "\n Lock Time: "@
        + decimal_text(t.lock_time as nat) + "\n Inputs ("@ + decimal_text(t.inputs.len())
        + "):\n"@
}

/// The whole report.
pub open spec fn transaction_text(t: TransactionModel) -> Seq<char> {
    header_text(t) + inputs_text(t.inputs)
}

/// The one-character text for the last decimal digit of `n`.
pub fn digit_str(n: u64) -> (s: &'static str)
    ensures
        s@ == seq![decimal_digit((n % 10) as nat)],
{
    let d: u64 = n % 10;
    proof {
        reveal_strlit("0");
        reveal_strlit("1");
        reveal_strlit("2");
        reveal_strlit("3");
        reveal_strlit("4");
        reveal_strlit("5");
        reveal_strlit("6");
        reveal_strlit("7");
        reveal_strlit("8");
        reveal_strlit("9");
    }
    if d == 0 {
        "0"
    } else if d == 1 {
        "1"
    } else if d == 2 {
        "2"
    } else if d == 3 {
        "3"
    } else if d == 4 {
        "4"
    } else if d == 5 {
        "5"
    } else if d == 6 {
        "6"
    } else if d == 7 {
        "7"
    } else if d == 8 {
        "8"
    } else {
        "9"
    }
}

/// Appends `n` in decimal notation to `out`.
pub fn push_decimal(out: &mut String, n: u64)
    ensures
        final(out)@ == old(out)@ + decimal_text(n as nat),
    decreases n,
{
    if n >= 10 {
        push_decimal(out, n / 10);
    }
    out.append(digit_str(n));
}

/// The number as eight lowercase hexadecimal digits, the most significant
/// first.
pub fn u32_hex(v: u32) -> (text: String)
    ensures
        text@ == hex_text(u32_be(v)),
{
    let mut bytes: Vec<u8> = Vec::new();
    bytes.push((v / 0x100_0000) as u8);
    bytes.push((v / 0x1_0000 % 256) as u8);
    bytes.push((v / 0x100 % 256) as u8);
    bytes.push((v % 256) as u8);
    proof {
        reveal(u32_be);
    }
    to_hex(bytes.as_slice())
}

/// Appends the lines that describe `input`, which stands at `index`.
pub fn push_input_text(out: &mut String, index: usize, input: &TransactionInput)
    ensures
        final(out)@ == old(out)@ + input_text(index as nat, input@),
{
    out.append("  Input: ");
    push_decimal(out, index as u64);
    out.append(":::\nPrevious Output Vout: ");
    push_decimal(out, input.previous_output.vout as u64);
    out.append("\nScript Sig Length: ");
    push_decimal(out, input.script_sig.bytes.len() as u64);
    out.append("\nScript Sig: ");
    let script = input.script_sig.to_hex();
    out.append(script.as_str());
    out.append("\n  Sequence: 0x");
    let sequence = u32_hex(input.sequence);
    out.append(sequence.as_str());
    out.append("\n");
}

impl BitcoinTransaction {
    /// The report of the transaction: version, lock time, the number of
    /// inputs, and the lines of each input in list order.
    pub fn render(&self) -> (text: String)
        ensures
            text@ == transaction_text(self@),
    {
        let mut out = String::from_str("Bitcoin Transaction:::\n Version: ");
        push_decimal(&mut out, self.version as u64);
        out.append("\n Lock Time: ");
        push_decimal(&mut out, self.lock_time as u64);
        out.append("\n Inputs (");
        push_decimal(&mut out, self.inputs.len() as u64);
        out.append("):\n");
        let mut i: usize = 0;
        while i < self.inputs.len()
            invariant
                i <= self.inputs.len(),
                out@ == header_text(self@) + inputs_text(self@.inputs.take(i as int)),
            decreases self.inputs.len() - i,
        {
            push_input_text(&mut out, i, &self.inputs[i]);
            proof {
                let next = self@.inputs.take(i + 1);
                assert(next.drop_last() =~= self@.inputs.take(i as int));
            }
            i += 1;
        }
        assert(self@.inputs.take(i as int) =~= self@.inputs);
        out
    }
}

} // verus!
