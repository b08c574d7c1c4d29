//! The matcher: whether an actual value satisfies an expected one.

use vstd::prelude::*;
use crate::json::{lemma_object_missing_key, lemma_object_value_mismatch};
use crate::value::{Value, lemma_array_element, lemma_object_entry, lemma_object_key};

verus! {

/// Whether `got` holds everything that `exp` asks for.
///
/// The shape of `exp` decides how the two are compared. An expected array
/// asks for an array of the same length whose elements match one by one. An
/// expected object asks for an object that has each of its keys with a
/// matching value, and may have more. Any other expected value asks for an
/// equal one, of the same kind: a string never matches a number, nor a
/// whole number a floating-point one.
pub fn cmp_expected(got: &Value, exp: &Value) -> (r: bool)
    ensures
        r == got@.satisfies(exp@),
    decreases exp,
{
    match exp {
        Value::Array(e_arr) => match got {
            Value::Array(g_arr) => {
                if e_arr.len() != g_arr.len() {
                    return false;
                }
                let mut i: usize = 0;
                while i < e_arr.len()
                    invariant
                        i <= e_arr.len(),
                        e_arr.len() == g_arr.len(),
                        *exp == Value::Array(*e_arr),
                        *got == Value::Array(*g_arr),
                        forall|j: int| 0 <= j < i ==> (#[trigger] g_arr[j])@.satisfies(e_arr[j]@),
                    decreases e_arr.len() - i,
                {
                    proof {
                        lemma_array_element(*g_arr, i);
                        lemma_array_element(*e_arr, i);
                    }
                    if !cmp_expected(&g_arr[i], &e_arr[i]) {
                        return false;
                    }
                    i += 1;
                }
                true
            },
            _ => false,
        },
        Value::Object(e_obj) => match got {
            Value::Object(g_obj) => {
                proof {
                    use_type_invariant(e_obj);
                }
                let mut i: usize = 0;
                while i < e_obj.entries.len()
                    invariant
                        i <= e_obj.entries.len(),
                        e_obj.well_formed(),
                        *exp == Value::Object(*e_obj),
                        *got == Value::Object(*g_obj),
                        forall|j: int|
                            0 <= j < i ==> g_obj@.contains_key((#[trigger] e_obj.entries[j]).0@)
                                && g_obj@[e_obj.entries[j].0@].satisfies(e_obj.entries[j].1@),
                    decreases e_obj.entries.len() - i,
                {
                    let key = &e_obj.entries[i].0;
                    let e_val = &e_obj.entries[i].1;
                    proof {
                        lemma_object_entry(*e_obj, i);
                    }
                    match g_obj.get(key) {
                        Some(g_val) => {
                            if !cmp_expected(g_val, e_val) {
                                proof {
                                    lemma_object_value_mismatch(g_obj@, e_obj@, key@);
                                }
                                return false;
                            }
                        },
                        None => {
                            proof {
                                lemma_object_missing_key(g_obj@, e_obj@, key@);
                            }
                            return false;
                        },
                    }
                    i += 1;
                }
                proof {
                    assert forall|k: Seq<char>| e_obj@.contains_key(k) implies g_obj@.contains_key(k)
                        && g_obj@[k].satisfies(e_obj@[k]) by {
                        lemma_object_key(*e_obj, k);
                    }
                }
                true
            },
            _ => false,
        },
        Value::Null => match got {
            Value::Null => true,
            _ => false,
        },
        Value::Bool(e) => match got {
            Value::Bool(g) => *g == *e,
            _ => false,
        },
        Value::Number(e) => match got {
            Value::Number(g) => g.equals(e),
            _ => false,
        },
        Value::String(e) => match got {
            Value::String(g) => *g == *e,
            _ => false,
        },
    }
}

} // verus!
