//! Stock keeping for drinks and snacks. A stock of -1 means the product's
//! stock is not tracked; tracked stock never goes below zero. Each change
//! of tracked stock is logged as a movement with a reason.
use vstd::prelude::*;

use crate::text::{
    chars_of, concat_chars, decimal_chars, decimal_text, signed_decimal_chars,
    signed_decimal_text, string_of, trim_chars, trimmed,
};

verus! {

/// Tracked stock after `quantity` items are ordered.
pub open spec fn stock_after_order(stock: int, quantity: int) -> int {
    stock - quantity
}

/// Tracked stock after an order of `quantity` items is removed again.
pub open spec fn stock_after_return(stock: int, quantity: int) -> int {
    stock + quantity
}

/// An order must be for at least one item.
pub fn check_quantity(quantity: i32) -> (r: Result<(), String>)
    ensures
        quantity < 1 ==> (r matches Err(m) && m@ == "Geçerli bir adet girin"@),
        quantity >= 1 ==> r is Ok,
{
    if quantity < 1 {
        Err("Geçerli bir adet girin".to_string())
    } else {
        Ok(())
    }
}

fn joined(a: &str, b: &Vec<char>, c: &str) -> (r: String)
    ensures
        r@ == a@ + b@ + c@,
{
    let x = concat_chars(&chars_of(a), b);
    let y = concat_chars(&x, &chars_of(c));
    string_of(&y)
}

fn with_prefix(a: &str, b: &Vec<char>) -> (r: String)
    ensures
        r@ == a@ + b@,
{
    string_of(&concat_chars(&chars_of(a), b))
}

/// Taking `quantity` of a product off its stock for an order: refused when
/// the product is off the menu or its tracked stock is too small. Gives the
/// new stock when stock is tracked, `None` when it is not.
pub fn order_stock(drink_name: &str, stock: i64, is_active: i64, quantity: i32) -> (r: Result<
    Option<i64>,
    String,
>)
    requires
        quantity >= 1,
    ensures
        is_active != 1 ==> (r matches Err(m) && m@ == "'"@ + drink_name@ + "' şu anda menüde değil"@),
        is_active == 1 && stock >= 0 && quantity > stock ==> (r matches Err(m) && m@
            == "Stok yetersiz! Kalan: "@ + decimal_text(stock as int)),
        is_active == 1 && stock < 0 ==> r == Ok::<Option<i64>, String>(None),
        is_active == 1 && stock >= 0 && quantity <= stock ==> r == Ok::<Option<i64>, String>(
            Some(stock_after_order(stock as int, quantity as int) as i64),
        ),
        r matches Ok(Some(s)) ==> s >= 0,
{
    if is_active != 1 {
        return Err(joined("'", &chars_of(drink_name), "' şu anda menüde değil"));
    }
    if stock >= 0 && quantity as i64 > stock {
        return Err(with_prefix("Stok yetersiz! Kalan: ", &decimal_chars(stock)));
    }
    if stock >= 0 {
        Ok(Some(stock - quantity as i64))
    } else {
        Ok(None)
    }
}

/// Putting `quantity` back when an order is removed: tracked stock grows by
/// it, untracked stock stays untracked.
pub fn returned_stock(current_stock: i64, quantity: i64) -> (r: Option<i64>)
    requires
        current_stock >= 0 ==> current_stock + quantity <= i64::MAX,
        current_stock >= 0 ==> current_stock + quantity >= i64::MIN,
    ensures
        current_stock >= 0 ==> r == Some(stock_after_return(current_stock as int, quantity as int) as i64),
        current_stock < 0 ==> r is None,
{
    if current_stock >= 0 {
        Some(current_stock + quantity)
    } else {
        None
    }
}

/// A manual stock change must not be zero.
pub fn check_change(change: i64) -> (r: Result<(), String>)
    ensures
        change == 0 ==> (r matches Err(m) && m@ == "Değişim 0 olamaz!"@),
        change != 0 ==> r is Ok,
{
    if change == 0 {
        Err("Değişim 0 olamaz!".to_string())
    } else {
        Ok(())
    }
}

/// The stock after a manual change of `change`: refused for untracked
/// stock, and when it would go below zero.
pub fn adjusted_stock(current: i64, change: i64) -> (r: Result<i64, String>)
    requires
        current >= 0 ==> i64::MIN <= current + change <= i64::MAX,
    ensures
        current < 0 ==> (r matches Err(m) && m@
            == "Sınırsız (stok takipsiz) ürünlerde stok işlemi yapılamaz!"@),
        current >= 0 && current + change < 0 ==> (r matches Err(m) && m@
            == "Stok negatif olamaz! Mevcut: "@ + decimal_text(current as int)),
        current >= 0 && current + change >= 0 ==> r == Ok::<i64, String>((current + change) as i64),
{
    if current < 0 {
        return Err("Sınırsız (stok takipsiz) ürünlerde stok işlemi yapılamaz!".to_string());
    }
    let new_stock = current + change;
    if new_stock < 0 {
        return Err(with_prefix("Stok negatif olamaz! Mevcut: ", &decimal_chars(current)));
    }
    Ok(new_stock)
}

/// The reason logged for a manual stock change: the given reason trimmed,
/// or `Stok işlemi` when that is empty.
pub fn adjustment_reason(reason: &str) -> (r: String)
    ensures
        trimmed(reason@).len() == 0 ==> r@ == "Stok işlemi"@,
        trimmed(reason@).len() > 0 ==> r@ == trimmed(reason@),
{
    let t = trim_chars(&chars_of(reason));
    if t.len() == 0 {
        "Stok işlemi".to_string()
    } else {
        string_of(&t)
    }
}

/// The movement to log when an edit sets a product's stock from `old` to
/// `new`: none when it is unchanged or the new stock is untracked;
/// otherwise the difference, with the reason `Başlangıç stoğu` when stock
/// was untracked before and `Stok düzeltme (±n)` otherwise.
pub fn edit_movement(old: i64, new: i64) -> (r: Option<(i64, String)>)
    requires
        i64::MIN <= new - old <= i64::MAX,
    ensures
        (old == new || new < 0) ==> r is None,
        (old != new && new >= 0) ==> (r matches Some(m) && m.0 == new - old && m.1@ == (if old == -1 {
            "Başlangıç stoğu"@
        } else {
            "Stok düzeltme ("@ + signed_decimal_text(new - old) + ")"@
        })),
{
    if old == new || new < 0 {
        return None;
    }
    let diff = new - old;
    let reason = if old == -1 {
        "Başlangıç stoğu".to_string()
    } else {
        joined("Stok düzeltme (", &signed_decimal_chars(diff), ")")
    };
    Some((diff, reason))
}

/// The active flag stored for a product: 1 when given as 1 (or, when not
/// given, when `default` is 1), 0 otherwise.
pub fn active_flag(requested: Option<i64>, default: i64) -> (r: i64)
    ensures
        r == (if (match requested {
            Some(v) => v,
            None => default,
        }) == 1 {
            1i64
        } else {
            0i64
        }),
{
    let v = match requested {
        Some(v) => v,
        None => default,
    };
    if v == 1 {
        1
    } else {
        0
    }
}

/// Ordering an item and then removing that order puts the stock back as it
/// was, and tracked stock never goes below zero on the way.
pub proof fn law_order_then_remove_restores_stock(stock: int, quantity: int)
    requires
        0 <= stock <= i64::MAX,
        1 <= quantity <= stock,
    ensures
        stock_after_order(stock, quantity) >= 0,
        stock_after_return(stock_after_order(stock, quantity), quantity) == stock,
{
}

} // verus!
