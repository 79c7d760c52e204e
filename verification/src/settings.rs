//! Settings kept as text: the business name shown in the interface, and
//! the stock level below which products are reported as running low.
use vstd::prelude::*;

use crate::billing::opt_view;
use crate::models::UiConfig;
use crate::text::{
    chars_of, decimal_chars, decimal_text, parse_i64, parsed_integer, string_of, to_uppercase,
    trim_chars, trimmed, uppercased,
};
use vstd::string::StringSliceAdditionalSpecFns;
use vstd::utf8::encode_utf8;

verus! {

/// The business name used until one is set.
pub const DEFAULT_BUSINESS_NAME: &'static str = "JiJi Game Center - PlayStation & VR";

/// The low-stock level used until one is set.
pub const DEFAULT_LOW_STOCK_THRESHOLD: i64 = 5;

/// The business name shown for the stored setting: the stored name
/// trimmed, or the default when there is none or it is blank.
pub open spec fn shown_business_name(stored: Option<Seq<char>>) -> Seq<char> {
    let name = match stored {
        Some(s) => s,
        None => DEFAULT_BUSINESS_NAME@,
    };
    if trimmed(name).len() == 0 {
        DEFAULT_BUSINESS_NAME@
    } else {
        trimmed(name)
    }
}

/// The business name shown for the stored setting.
pub fn business_name(stored: Option<&str>) -> (r: String)
    ensures
        r@ == shown_business_name(opt_view(stored)),
{
    let name = match stored {
        Some(s) => s,
        None => DEFAULT_BUSINESS_NAME,
    };
    let t = trim_chars(&chars_of(name));
    if t.len() == 0 {
        DEFAULT_BUSINESS_NAME.to_string()
    } else {
        string_of(&t)
    }
}

/// The interface branding for the stored business-name setting: the name
/// and its upper-case form.
pub fn ui_config(stored: Option<&str>) -> (r: UiConfig)
    ensures
        r.business_name@ == shown_business_name(opt_view(stored)),
        r.business_name_upper@ == uppercased(shown_business_name(opt_view(stored))),
{
    let name = business_name(stored);
    let upper = to_uppercase(name.as_str());
    UiConfig { business_name: name, business_name_upper: upper }
}

/// Checks a new business name and gives it trimmed: it must not be blank
/// and may take at most 80 bytes of UTF-8.
pub fn check_business_name(name: &str) -> (r: Result<String, String>)
    ensures
        trimmed(name@).len() == 0 ==> (r matches Err(m) && m@ == "İşletme adı boş olamaz!"@),
        trimmed(name@).len() > 0 && encode_utf8(trimmed(name@)).len() > 80 ==> (r matches Err(m)
            && m@ == "İşletme adı en fazla 80 karakter olabilir."@),
        trimmed(name@).len() > 0 && encode_utf8(trimmed(name@)).len() <= 80 ==> (r matches Ok(n)
            && n@ == trimmed(name@)),
{
    let t = string_of(&trim_chars(&chars_of(name)));
    if t.as_str().is_empty() {
        return Err("İşletme adı boş olamaz!".to_string());
    }
    if t.as_str().as_bytes().len() > 80 {
        return Err("İşletme adı en fazla 80 karakter olabilir.".to_string());
    }
    Ok(t)
}

/// The value of an integer setting: the stored text read as an `i64`, or
/// `default` when there is none or it does not read.
pub open spec fn int_setting_of(stored: Option<Seq<char>>, default: i64) -> int {
    match stored {
        Some(s) => match parsed_integer(s, true, i64::MIN as int, i64::MAX as int) {
            Some(v) => v,
            None => default as int,
        },
        None => default as int,
    }
}

/// The value of an integer setting (see `int_setting_of`).
pub fn int_setting(stored: Option<&str>, default: i64) -> (r: i64)
    ensures
        r == int_setting_of(opt_view(stored), default),
{
    match stored {
        Some(s) => match parse_i64(&chars_of(s)) {
            Some(v) => v,
            None => default,
        },
        None => default,
    }
}

/// The low-stock level for the stored setting: the stored text read as an
/// `i64`, or the default when there is none or it does not read.
pub open spec fn low_stock_level(stored: Option<Seq<char>>) -> int {
    int_setting_of(stored, DEFAULT_LOW_STOCK_THRESHOLD)
}

/// The low-stock level for the stored setting.
pub fn low_stock_threshold(stored: Option<&str>) -> (r: i64)
    ensures
        r == low_stock_level(opt_view(stored)),
{
    int_setting(stored, DEFAULT_LOW_STOCK_THRESHOLD)
}

/// The low-stock level to store for a requested `value` (never below zero)
/// and its text.
pub fn threshold_setting(value: i64) -> (r: (i64, String))
    ensures
        r.0 == (if value < 0 {
            0
        } else {
            value
        }),
        r.1@ == decimal_text(r.0 as int),
        low_stock_level(Some(r.1@)) == r.0,
{
    let v = if value < 0 {
        0
    } else {
        value
    };
    let text = string_of(&decimal_chars(v));
    proof {
        crate::text::lemma_decimal_reads_back(v as int);
    }
    (v, text)
}

} // verus!
