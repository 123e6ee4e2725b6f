use vstd::prelude::*;

verus! {

/// The fixed keyword table: host-language prelude, primitive and
/// container names, and every directive name of the binary-serialization
/// attribute language. Case-sensitive, consulted nowhere but here.
pub open spec fn is_keyword_spec(s: Seq<char>) -> bool {
    ||| s == "Vec"@
    ||| s == "u8"@
    ||| s == "u16"@
    ||| s == "u32"@
    ||| s == "u64"@
    ||| s == "u128"@
    ||| s == "i8"@
    ||| s == "i16"@
    ||| s == "i32"@
    ||| s == "i64"@
    ||| s == "i128"@
    ||| s == "char"@
    ||| s == "String"@
    ||| s == "Default"@
    ||| s == "Self"@
    ||| s == "super"@
    ||| s == "Drop"@
    ||| s == "Send"@
    ||| s == "Sync"@
    ||| s == "Sized"@
    ||| s == "Fn"@
    ||| s == "FnMut"@
    ||| s == "FnOnce"@
    ||| s == "From"@
    ||| s == "Into"@
    ||| s == "Iterator"@
    ||| s == "IntoIterator"@
    ||| s == "Ord"@
    ||| s == "Eq"@
    ||| s == "PartialEq"@
    ||| s == "Box"@
    ||| s == "ToString"@
    ||| s == "usize"@
    ||| s == "isize"@
    ||| s == "f32"@
    ||| s == "f64"@
    ||| s == "str"@
    ||| s == "align_after"@
    ||| s == "align_before"@
    ||| s == "args"@
    ||| s == "args_raw"@
    ||| s == "assert"@
    ||| s == "big"@
    ||| s == "binread"@
    ||| s == "br"@
    ||| s == "brw"@
    ||| s == "binwrite"@
    ||| s == "bw"@
    ||| s == "calc"@
    ||| s == "count"@
    ||| s == "default"@
    ||| s == "deref_now"@
    ||| s == "ignore"@
    ||| s == "import"@
    ||| s == "import_raw"@
    ||| s == "is_big"@
    ||| s == "is_little"@
    ||| s == "little"@
    ||| s == "magic"@
    ||| s == "map"@
    ||| s == "offset"@
    ||| s == "offset_after"@
    ||| s == "pad_after"@
    ||| s == "pad_before"@
    ||| s == "pad_size_to"@
    ||| s == "parse_with"@
    ||| s == "postprocess_now"@
    ||| s == "pre_assert"@
    ||| s == "repr"@
    ||| s == "restore_position"@
    ||| s == "return_all_errors"@
    ||| s == "return_unexpected_error"@
    ||| s == "seek_before"@
    ||| s == "temp"@
    ||| s == "try_map"@
    ||| s == "write_with"@
}

/// Decides whether an identifier is in the fixed keyword table.
pub fn is_keyword(s: &str) -> (r: bool)
    ensures
        r == is_keyword_spec(s@),
{
    let t = String::from_str(s);
    let r = false
        || t == String::from_str("Vec")
        || t == String::from_str("u8")
        || t == String::from_str("u16")
        || t == String::from_str("u32")
        || t == String::from_str("u64")
        || t == String::from_str("u128")
        || t == String::from_str("i8")
        || t == String::from_str("i16")
        || t == String::from_str("i32")
        || t == String::from_str("i64")
        || t == String::from_str("i128")
        || t == String::from_str("char")
        || t == String::from_str("String")
        || t == String::from_str("Default")
        || t == String::from_str("Self")
        || t == String::from_str("super")
        || t == String::from_str("Drop")
        || t == String::from_str("Send")
        || t == String::from_str("Sync")
        || t == String::from_str("Sized")
        || t == String::from_str("Fn")
        || t == String::from_str("FnMut")
        || t == String::from_str("FnOnce")
        || t == String::from_str("From")
        || t == String::from_str("Into")
        || t == String::from_str("Iterator")
        || t == String::from_str("IntoIterator")
        || t == String::from_str("Ord")
        || t == String::from_str("Eq")
        || t == String::from_str("PartialEq")
        || t == String::from_str("Box")
        || t == String::from_str("ToString")
        || t == String::from_str("usize")
        || t == String::from_str("isize")
        || t == String::from_str("f32")
        || t == String::from_str("f64")
        || t == String::from_str("str")
        || t == String::from_str("align_after")
        || t == String::from_str("align_before")
        || t == String::from_str("args")
        || t == String::from_str("args_raw")
        || t == String::from_str("assert")
        || t == String::from_str("big")
        || t == String::from_str("binread")
        || t == String::from_str("br")
        || t == String::from_str("brw")
        || t == String::from_str("binwrite")
        || t == String::from_str("bw")
        || t == String::from_str("calc")
        || t == String::from_str("count")
        || t == String::from_str("default")
        || t == String::from_str("deref_now")
        || t == String::from_str("ignore")
        || t == String::from_str("import")
        || t == String::from_str("import_raw")
        || t == String::from_str("is_big")
        || t == String::from_str("is_little")
        || t == String::from_str("little")
        || t == String::from_str("magic")
        || t == String::from_str("map")
        || t == String::from_str("offset")
        || t == String::from_str("offset_after")
        || t == String::from_str("pad_after")
        || t == String::from_str("pad_before")
        || t == String::from_str("pad_size_to")
        || t == String::from_str("parse_with")
        || t == String::from_str("postprocess_now")
        || t == String::from_str("pre_assert")
        || t == String::from_str("repr")
        || t == String::from_str("restore_position")
        || t == String::from_str("return_all_errors")
        || t == String::from_str("return_unexpected_error")
        || t == String::from_str("seek_before")
        || t == String::from_str("temp")
        || t == String::from_str("try_map")
        || t == String::from_str("write_with");
    r
}

} // verus!
