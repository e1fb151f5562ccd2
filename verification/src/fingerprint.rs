//! Error fingerprints by location: the first frame of a backtrace that belongs to the
//! application, without its method, together with the exception class.

use crate::text::{
    all_whitespace, chars_of, contains, extend_chars, has_infix, is_blank, is_last_occurrence,
    rfind, slice_of, string_of,
};
use vstd::prelude::*;

verus! {

/// Whether a frame belongs to a library or to the language runtime rather than to the
/// application: its text holds one of a fixed list of path fragments and markers.
pub open spec fn is_library_frame(frame: Seq<char>) -> bool {
    ||| contains(frame, "/gems/"@)
    ||| contains(frame, "/vendor/"@)
    ||| contains(frame, "/ruby/"@)
    ||| contains(frame, "/lib/ruby/"@)
    ||| contains(frame, "node_modules/"@)
    ||| contains(frame, "/usr/lib/"@)
    ||| contains(frame, "/usr/local/lib/"@)
    ||| contains(frame, "<internal:"@)
    ||| contains(frame, "(eval)"@)
    ||| contains(frame, "(irb)"@)
    ||| contains(frame, "/activerecord-"@)
    ||| contains(frame, "/activesupport-"@)
    ||| contains(frame, "/actionpack-"@)
    ||| contains(frame, "/rack-"@)
    ||| contains(frame, "/railties-"@)
    ||| contains(frame, "/bundler/"@)
}

/// Whether a frame belongs to the application: it is no library frame, and not blank.
pub open spec fn is_app_frame(frame: Seq<char>) -> bool {
    !is_library_frame(frame) && !is_blank(frame)
}

/// The text that introduces the method in a frame.
pub open spec fn method_mark() -> Seq<char> {
    ":in "@
}

/// A frame without its method: what stands before the last `":in "`, or the whole frame
/// where there is none.
pub open spec fn strip_method(frame: Seq<char>) -> Seq<char> {
    if contains(frame, method_mark()) {
        frame.take(choose|i: int| is_last_occurrence(frame, method_mark(), i))
    } else {
        frame
    }
}

/// The first application frame of a backtrace, if it has one.
pub open spec fn first_app_frame(backtrace: Seq<String>) -> Option<Seq<char>>
    decreases backtrace.len(),
{
    if backtrace.len() == 0 {
        None
    } else if is_app_frame(backtrace[0]@) {
        Some(backtrace[0]@)
    } else {
        first_app_frame(backtrace.drop_first())
    }
}

/// The location of an error: its first application frame without the method. Where every
/// frame is a library frame, the first frame stands in. An empty backtrace has no location.
pub open spec fn error_location(backtrace: Seq<String>) -> Option<Seq<char>> {
    match first_app_frame(backtrace) {
        Some(frame) => Some(strip_method(frame)),
        None => if backtrace.len() > 0 {
            Some(strip_method(backtrace[0]@))
        } else {
            None
        },
    }
}

/// The fingerprint of an error by location: the exception class, a colon, and the location,
/// which is empty where the backtrace has none.
pub open spec fn location_fingerprint(exception_class: Seq<char>, backtrace: Seq<String>) -> Seq<
    char,
> {
    exception_class + seq![':'] + match error_location(backtrace) {
        Some(location) => location,
        None => Seq::empty(),
    }
}

/// Whether a frame belongs to a library or to the language runtime.
pub fn frame_is_library(frame: &Vec<char>) -> (b: bool)
    ensures
        b == is_library_frame(frame@),
{
    has_infix(frame, "/gems/") || has_infix(frame, "/vendor/") || has_infix(frame, "/ruby/")
        || has_infix(frame, "/lib/ruby/") || has_infix(frame, "node_modules/") || has_infix(
        frame,
        "/usr/lib/",
    ) || has_infix(frame, "/usr/local/lib/") || has_infix(frame, "<internal:") || has_infix(
        frame,
        "(eval)",
    ) || has_infix(frame, "(irb)") || has_infix(frame, "/activerecord-") || has_infix(
        frame,
        "/activesupport-",
    ) || has_infix(frame, "/actionpack-") || has_infix(frame, "/rack-") || has_infix(
        frame,
        "/railties-",
    ) || has_infix(frame, "/bundler/")
}

/// A frame without its method.
pub fn frame_without_method(frame: &Vec<char>) -> (r: Vec<char>)
    ensures
        r@ == strip_method(frame@),
{
    let mark = chars_of(":in ");
    match rfind(frame, &mark) {
        Some(at) => {
            slice_of(frame, 0, at)
        },
        None => slice_of(frame, 0, frame.len()),
    }
}

/// The location of an error in its backtrace: the first application frame without its
/// method, or the first frame where none belongs to the application.
pub fn extract_error_location(backtrace: &[String]) -> (location: Option<String>)
    ensures
        match location {
            Some(l) => error_location(backtrace@) == Some(l@),
            None => error_location(backtrace@).is_none(),
        },
{
    let mut i: usize = 0;
    proof {
        assert(backtrace@.skip(0) =~= backtrace@);
    }
    while i < backtrace.len()
        invariant
            i <= backtrace.len(),
            first_app_frame(backtrace@) == first_app_frame(backtrace@.skip(i as int)),
        decreases backtrace.len() - i,
    {
        let frame = chars_of(backtrace[i].as_str());
        proof {
            assert(backtrace@.skip(i as int).drop_first() =~= backtrace@.skip(i + 1));
        }
        if !frame_is_library(&frame) && !all_whitespace(&frame) {
            let stripped = frame_without_method(&frame);
            return Some(string_of(&stripped));
        }
        i += 1;
    }
    if backtrace.len() > 0 {
        let frame = chars_of(backtrace[0].as_str());
        let stripped = frame_without_method(&frame);
        Some(string_of(&stripped))
    } else {
        None
    }
}

/// The fingerprint of an error by location.
pub fn generate_location_fingerprint(exception_class: &str, backtrace: &[String]) -> (fingerprint:
    String)
    ensures
        fingerprint@ == location_fingerprint(exception_class@, backtrace@),
{
    let mut out = chars_of(exception_class);
    out.push(':');
    if let Some(location) = extract_error_location(backtrace) {
        let tail = chars_of(location.as_str());
        extend_chars(&mut out, &tail);
    }
    string_of(&out)
}

} // verus!
