//! Cache keys of the daemon client's read-through caches: one key per
//! distinct query, so that a repeated query within a refresh cycle is served
//! from the cache.

use crate::text::{decimal_text, push_decimal};
use vstd::prelude::*;
use vstd::string::*;

verus! {

/// `"policies:{owner}"`.
pub fn policies_key(filter_owner: u32) -> (r: String)
    ensures
        r@ == "policies:"@ + decimal_text(filter_owner as int),
{
    let mut k = String::from_str("policies:");
    push_decimal(&mut k, filter_owner as i64);
    k
}

/// `"range:{start}:{end}:{user}"`.
pub fn usage_range_key(start_date: &str, end_date: &str, user_id: u32) -> (r: String)
    ensures
        r@ == "range:"@ + start_date@ + ":"@ + end_date@ + ":"@ + decimal_text(user_id as int),
{
    let mut k = String::from_str("range:");
    k.append(start_date);
    k.append(":");
    k.append(end_date);
    k.append(":");
    push_decimal(&mut k, user_id as i64);
    k
}

/// `"title:{date}:{user}"`.
pub fn daily_title_key(date: &str, user_id: u32) -> (r: String)
    ensures
        r@ == "title:"@ + date@ + ":"@ + decimal_text(user_id as int),
{
    let mut k = String::from_str("title:");
    k.append(date);
    k.append(":");
    push_decimal(&mut k, user_id as i64);
    k
}

/// `"range_by_title:{start}:{end}:{user}"`.
pub fn usage_range_by_title_key(start_date: &str, end_date: &str, user_id: u32) -> (r: String)
    ensures
        r@ == "range_by_title:"@ + start_date@ + ":"@ + end_date@ + ":"@ + decimal_text(user_id as int),
{
    let mut k = String::from_str("range_by_title:");
    k.append(start_date);
    k.append(":");
    k.append(end_date);
    k.append(":");
    push_decimal(&mut k, user_id as i64);
    k
}

/// `"day_events:{uid}:{start}:{end}"`.
pub fn day_events_key(uid: u32, start_millis: i64, end_millis: i64) -> (r: String)
    ensures
        r@ == "day_events:"@ + decimal_text(uid as int) + ":"@ + decimal_text(start_millis as int) + ":"@
            + decimal_text(end_millis as int),
{
    let mut k = String::from_str("day_events:");
    push_decimal(&mut k, uid as i64);
    k.append(":");
    push_decimal(&mut k, start_millis);
    k.append(":");
    push_decimal(&mut k, end_millis);
    k
}

/// `"categories"`.
pub fn categories_key() -> (r: String)
    ensures
        r@ == "categories"@,
{
    String::from_str("categories")
}

/// `"app_categories"`.
pub fn app_categories_key() -> (r: String)
    ensures
        r@ == "app_categories"@,
{
    String::from_str("app_categories")
}

} // verus!
