//! Store information: row counts and a human-readable file size.

use vstd::prelude::*;
use crate::db::{lemma_user_ids_len_bound, Database};
use crate::text::{dec_str, push_char, spec_digit_char, u64_to_string};

verus! {

/// One kibibyte, mebibyte and gibibyte.
pub const KB: u64 = 1024;

pub const MB: u64 = 1048576;

pub const GB: u64 = 1073741824;

/// Counts and size reported for the store file.
#[derive(Debug)]
pub struct DatabaseInfo {
    pub size_bytes: u64,
    pub size_formatted: String,
    pub employee_count: i32,
    pub user_count: i32,
}

/// Two decimal digits, zero padded.
pub open spec fn dec2(n: nat) -> Seq<char>
    recommends
        n < 100,
{
    seq![spec_digit_char(n / 10), spec_digit_char(n % 10)]
}

/// A byte count scaled against a unit, in hundredths, truncated.
pub open spec fn spec_scaled_hundredths(bytes: u64, unit: u64) -> nat {
    ((bytes * 100) / (unit as int)) as nat
}

/// A byte count rendered for people: two truncated decimals against the
/// largest unit the count reaches, or the plain count below one
/// kibibyte.
pub open spec fn spec_format_file_size(bytes: u64) -> Seq<char> {
    if bytes >= GB {
        dec_str(spec_scaled_hundredths(bytes, GB) / 100) + seq!['.'] + dec2(
            spec_scaled_hundredths(bytes, GB) % 100,
        ) + " GB"@
    } else if bytes >= MB {
        dec_str(spec_scaled_hundredths(bytes, MB) / 100) + seq!['.'] + dec2(
            spec_scaled_hundredths(bytes, MB) % 100,
        ) + " MB"@
    } else if bytes >= KB {
        dec_str(spec_scaled_hundredths(bytes, KB) / 100) + seq!['.'] + dec2(
            spec_scaled_hundredths(bytes, KB) % 100,
        ) + " KB"@
    } else {
        dec_str(bytes as nat) + " bytes"@
    }
}

fn scaled_hundredths(bytes: u64, unit: u64) -> (r: u64)
    requires
        unit >= 128,
    ensures
        r == spec_scaled_hundredths(bytes, unit),
{
    let wide: u128 = (bytes as u128) * 100 / (unit as u128);
    proof {
        assert(wide == (bytes * 100) / (unit as int));
        assert((bytes * 100) / (unit as int) <= u64::MAX) by (nonlinear_arith)
            requires
                unit >= 128,
                bytes <= u64::MAX,
        ;
    }
    wide as u64
}

fn format_scaled(scaled: u64, suffix: &str) -> (r: String)
    ensures
        r@ == dec_str(scaled as nat / 100) + seq!['.'] + dec2(scaled as nat % 100) + suffix@,
{
    let mut s = u64_to_string(scaled / 100);
    push_char(&mut s, '.');
    let frac = scaled % 100;
    push_char(&mut s, crate::text::digit_char((frac / 10) as u8));
    push_char(&mut s, crate::text::digit_char((frac % 10) as u8));
    proof {
        assert(s@ =~= dec_str(scaled as nat / 100) + seq!['.'] + dec2(scaled as nat % 100));
    }
    s.append(suffix);
    s
}

/// Renders a byte count for people, two truncated decimals against the
/// largest unit reached.
pub fn format_file_size(bytes: u64) -> (r: String)
    ensures
        r@ == spec_format_file_size(bytes),
{
    if bytes >= GB {
        format_scaled(scaled_hundredths(bytes, GB), " GB")
    } else if bytes >= MB {
        format_scaled(scaled_hundredths(bytes, MB), " MB")
    } else if bytes >= KB {
        format_scaled(scaled_hundredths(bytes, KB), " KB")
    } else {
        let mut s = u64_to_string(bytes);
        s.append(" bytes");
        s
    }
}

/// The store's row counts together with the caller-measured file size,
/// formatted for display.
pub fn get_database_info(db: &Database, file_size: u64) -> (r: DatabaseInfo)
    requires
        db.wf(),
        db.employees().len() <= i32::MAX,
    ensures
        r.size_bytes == file_size,
        r.size_formatted@ == spec_format_file_size(file_size),
        r.employee_count == db.employees().len(),
        r.user_count == db.users().len(),
{
    proof {
        lemma_user_ids_len_bound(db.users(), db.spec_next_user_id());
    }
    DatabaseInfo {
        size_bytes: file_size,
        size_formatted: format_file_size(file_size),
        employee_count: db.employee_table().len() as i32,
        user_count: db.user_table().len() as i32,
    }
}

} // verus!
