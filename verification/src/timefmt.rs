use vstd::prelude::*;

verus! {

/// The "YYYY-MM-DD HH:MM" label, in UTC, of the moment `secs` seconds after
/// the Unix epoch; the empty sequence where that moment cannot be rendered.
pub uninterp spec fn timestamp_label(secs: int) -> Seq<char>;

/// Relies on `time::OffsetDateTime::from_unix_timestamp` and
/// `time::OffsetDateTime::format` with the constant description
/// `[year]-[month]-[day] [hour]:[minute]`: both are pure computations on
/// their arguments, so the label is a function of the timestamp alone.
/// Every failure of either call is mapped to the empty label.
#[verifier::external_body]
pub(crate) fn format_timestamp(secs: i64) -> (r: String)
    ensures
        r@ == timestamp_label(secs as int),
{
    match time::OffsetDateTime::from_unix_timestamp(secs) {
        Ok(t) => match time::format_description::parse("[year]-[month]-[day] [hour]:[minute]") {
            Ok(f) => match t.format(&f) {
                Ok(s) => s,
                Err(_) => String::new(),
            },
            Err(_) => String::new(),
        },
        Err(_) => String::new(),
    }
}

} // verus!
