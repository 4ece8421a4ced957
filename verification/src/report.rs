//! The final report: one line per client with its balances, amounts written
//! with four decimal places.
use vstd::prelude::*;
use crate::db::sled::SledStore;
use crate::db::layout::fits_i128;
use crate::db::{available_of, frozen_of, held_of, ClientReport, BALANCE_LEN};

verus! {

/// The first line of the report.
pub const REPORT_HEADER: &'static str = "client,available,held,total,locked\n";

/// The ASCII digit of `d` (below ten).
pub open spec fn digit(d: nat) -> u8 {
    (48 + d) as u8
}

/// The decimal digits of `n`, without leading zeros.
pub open spec fn decimal_digits(n: nat) -> Seq<u8>
    decreases n,
{
    if n < 10 {
        seq![digit(n)]
    } else {
        decimal_digits(n / 10).push(digit(n % 10))
    }
}

/// The absolute value of `v`.
pub open spec fn magnitude(v: int) -> nat {
    if v < 0 {
        (-v) as nat
    } else {
        v as nat
    }
}

/// An amount of ten-thousandths written as a decimal with four places, such
/// as `-12.3400`.
pub open spec fn amount_text(ticks: int) -> Seq<u8> {
    let m = magnitude(ticks);
    let r = m % 10000;
    (if ticks < 0 {
        seq![45u8]
    } else {
        Seq::empty()
    }) + decimal_digits(m / 10000) + seq![
        46u8,
        digit(r / 1000),
        digit((r / 100) % 10),
        digit((r / 10) % 10),
        digit(r % 10),
    ]
}

/// The text of `true` or `false`.
pub open spec fn bool_text(b: bool) -> Seq<u8> {
    if b {
        seq![116u8, 114u8, 117u8, 101u8]
    } else {
        seq![102u8, 97u8, 108u8, 115u8, 101u8]
    }
}

/// The report line of a client: client, available, held, total and locked,
/// separated by commas and ended by a newline.
pub open spec fn report_line_text(r: ClientReport) -> Seq<u8> {
    decimal_digits(r.client as nat) + seq![44u8] + amount_text(r.available as int) + seq![44u8]
        + amount_text(r.held as int) + seq![44u8] + amount_text(r.total as int) + seq![44u8]
        + bool_text(r.locked) + seq![10u8]
}

/// The client that a balance key names: two bytes big-endian.
pub open spec fn client_of_key(key: Seq<u8>) -> u16 {
    (key[0] * 256 + key[1]) as u16
}

/// Appends the decimal digits of `n`.
fn push_decimal(out: &mut Vec<u8>, n: u128)
    ensures
        final(out)@ == old(out)@ + decimal_digits(n as nat),
    decreases n,
{
    if n >= 10 {
        push_decimal(out, n / 10);
    }
    out.push((48 + n % 10) as u8);
    proof {
        if n >= 10 {
            assert(old(out)@ + decimal_digits(n as nat) =~= old(out)@ + decimal_digits(
                (n / 10) as nat,
            ) + seq![digit((n % 10) as nat)]);
        }
    }
}

/// Appends an amount of ten-thousandths with four decimal places.
fn push_amount(out: &mut Vec<u8>, ticks: i128)
    ensures
        final(out)@ == old(out)@ + amount_text(ticks as int),
{
    let m: u128 = if ticks < 0 {
        out.push(45u8);
        ((-(ticks + 1)) as u128) + 1
    } else {
        ticks as u128
    };
    assert(m == magnitude(ticks as int));
    let ghost before = out@;
    push_decimal(out, m / 10000);
    let r = m % 10000;
    out.push(46u8);
    out.push((48 + r / 1000) as u8);
    out.push((48 + (r / 100) % 10) as u8);
    out.push((48 + (r / 10) % 10) as u8);
    out.push((48 + r % 10) as u8);
    assert(out@ =~= old(out)@ + amount_text(ticks as int));
}

impl ClientReport {
    /// The report of the client whose balance record is stored under `key`.
    pub fn from_record(key: &[u8], bal: &[u8]) -> (r: ClientReport)
        requires
            key@.len() == 2,
            bal@.len() >= BALANCE_LEN,
            fits_i128(available_of(bal@) + held_of(bal@)),
        ensures
            r.client == client_of_key(key@),
            r.available == available_of(bal@),
            r.held == held_of(bal@),
            r.total == available_of(bal@) + held_of(bal@),
            r.locked == frozen_of(bal@),
    {
        let client: u16 = (key[0] as u16) * 256 + (key[1] as u16);
        let available = SledStore::get_balance_val(bal);
        let held = SledStore::get_held_val(bal);
        let locked = SledStore::is_frozen(bal);
        ClientReport {
            client,
            available,
            held,
            total: available + held,
            locked,
        }
    }

    /// The report line of this client.
    pub fn line(&self) -> (line: Vec<u8>)
        ensures
            line@ == report_line_text(*self),
    {
        let mut out: Vec<u8> = Vec::new();
        push_decimal(&mut out, self.client as u128);
        out.push(44u8);
        push_amount(&mut out, self.available);
        out.push(44u8);
        push_amount(&mut out, self.held);
        out.push(44u8);
        push_amount(&mut out, self.total);
        out.push(44u8);
        if self.locked {
            out.push(116u8);
            out.push(114u8);
            out.push(117u8);
            out.push(101u8);
        } else {
            out.push(102u8);
            out.push(97u8);
            out.push(108u8);
            out.push(115u8);
            out.push(101u8);
        }
        out.push(10u8);
        assert(out@ =~= report_line_text(*self));
        out
    }
}

} // verus!
