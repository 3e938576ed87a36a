//! Names of container images that programs start `FROM`.
use vstd::prelude::*;

use crate::text::{chars_of, push_str};

verus! {

/// The full name of a Docker image: a name without a `/` is an official
/// image, under `library/`.
pub open spec fn spec_image_name(src: Seq<char>) -> Seq<char> {
    if src.contains('/') {
        src
    } else {
        "library/"@ + src
    }
}

/// The full name of the Docker image that `FROM docker://SRC` names.
pub fn image_name(src: &str) -> (r: String)
    ensures
        r@ == spec_image_name(src@),
{
    let chars = chars_of(src);
    let mut i: usize = 0;
    while i < chars.len()
        invariant
            i <= chars@.len(),
            chars@ == src@,
            forall|j: int| 0 <= j < i ==> src@[j] != '/',
        decreases chars@.len() - i,
    {
        if chars[i] == '/' {
            proof {
                assert(src@[i as int] == '/');
            }
            return src.to_owned();
        }
        i = i + 1;
    }
    let mut res = String::new();
    push_str(&mut res, "library/");
    push_str(&mut res, src);
    res
}

} // verus!
