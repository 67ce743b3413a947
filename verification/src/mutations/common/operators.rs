//! The sets of operators and of words that are shuffled: a member of a
//! set is replaced by each other member.

use crate::mutations::common::patterns::str_bytes;
use vstd::prelude::*;
use vstd::utf8::*;

verus! {

/// The arithmetic operators, as texts.
pub open spec fn arithmetic_texts() -> Seq<Seq<u8>> {
    seq![
        encode_utf8("+"@),
        encode_utf8("-"@),
        encode_utf8("*"@),
        encode_utf8("/"@),
    ]
}

/// The arithmetic operators.
pub fn arithmetic_set() -> (r: [&'static str; 4])
    ensures
        str_bytes(r@) == arithmetic_texts(),
{
    let set = ["+", "-", "*", "/"];
    assert(str_bytes(set@) =~= arithmetic_texts());
    set
}

/// The arithmetic assignment operators, as texts.
pub open spec fn arithmetic_assignment_texts() -> Seq<Seq<u8>> {
    seq![
        encode_utf8("+="@),
        encode_utf8("-="@),
        encode_utf8("*="@),
        encode_utf8("/="@),
    ]
}

/// The arithmetic assignment operators.
pub fn arithmetic_assignment_set() -> (r: [&'static str; 4])
    ensures
        str_bytes(r@) == arithmetic_assignment_texts(),
{
    let set = ["+=", "-=", "*=", "/="];
    assert(str_bytes(set@) =~= arithmetic_assignment_texts());
    set
}

/// The bitwise operators, as texts.
pub open spec fn bitwise_texts() -> Seq<Seq<u8>> {
    seq![
        encode_utf8("&"@),
        encode_utf8("|"@),
        encode_utf8("^"@),
    ]
}

/// The bitwise operators.
pub fn bitwise_set() -> (r: [&'static str; 3])
    ensures
        str_bytes(r@) == bitwise_texts(),
{
    let set = ["&", "|", "^"];
    assert(str_bytes(set@) =~= bitwise_texts());
    set
}

/// The bitwise assignment operators, as texts.
pub open spec fn bitwise_assignment_texts() -> Seq<Seq<u8>> {
    seq![
        encode_utf8("&="@),
        encode_utf8("|="@),
        encode_utf8("^="@),
    ]
}

/// The bitwise assignment operators.
pub fn bitwise_assignment_set() -> (r: [&'static str; 3])
    ensures
        str_bytes(r@) == bitwise_assignment_texts(),
{
    let set = ["&=", "|=", "^="];
    assert(str_bytes(set@) =~= bitwise_assignment_texts());
    set
}

/// The comparison operators, as texts.
pub open spec fn comparison_texts() -> Seq<Seq<u8>> {
    seq![
        encode_utf8("=="@),
        encode_utf8("!="@),
        encode_utf8("<"@),
        encode_utf8("<="@),
        encode_utf8(">"@),
        encode_utf8(">="@),
    ]
}

/// The comparison operators.
pub fn comparison_set() -> (r: [&'static str; 6])
    ensures
        str_bytes(r@) == comparison_texts(),
{
    let set = ["==", "!=", "<", "<=", ">", ">="];
    assert(str_bytes(set@) =~= comparison_texts());
    set
}

/// The logical operators, as texts.
pub open spec fn logical_texts() -> Seq<Seq<u8>> {
    seq![
        encode_utf8("&&"@),
        encode_utf8("||"@),
    ]
}

/// The logical operators.
pub fn logical_set() -> (r: [&'static str; 2])
    ensures
        str_bytes(r@) == logical_texts(),
{
    let set = ["&&", "||"];
    assert(str_bytes(set@) =~= logical_texts());
    set
}

/// The shift operators, as texts.
pub open spec fn shift_texts() -> Seq<Seq<u8>> {
    seq![
        encode_utf8("<<"@),
        encode_utf8(">>"@),
    ]
}

/// The shift operators.
pub fn shift_set() -> (r: [&'static str; 2])
    ensures
        str_bytes(r@) == shift_texts(),
{
    let set = ["<<", ">>"];
    assert(str_bytes(set@) =~= shift_texts());
    set
}

/// The shift assignment operators, as texts.
pub open spec fn shift_assignment_texts() -> Seq<Seq<u8>> {
    seq![
        encode_utf8("<<="@),
        encode_utf8(">>="@),
    ]
}

/// The shift assignment operators.
pub fn shift_assignment_set() -> (r: [&'static str; 2])
    ensures
        str_bytes(r@) == shift_assignment_texts(),
{
    let set = ["<<=", ">>="];
    assert(str_bytes(set@) =~= shift_assignment_texts());
    set
}

/// The division operators of FunC, with their rounding variants, as texts.
pub open spec fn division_texts() -> Seq<Seq<u8>> {
    seq![
        encode_utf8("/"@),
        encode_utf8("~/"@),
        encode_utf8("^/"@),
    ]
}

/// The division operators of FunC, with their rounding variants.
pub fn division_set() -> (r: [&'static str; 3])
    ensures
        str_bytes(r@) == division_texts(),
{
    let set = ["/", "~/", "^/"];
    assert(str_bytes(set@) =~= division_texts());
    set
}

/// The division assignment operators of FunC, as texts.
pub open spec fn division_assignment_texts() -> Seq<Seq<u8>> {
    seq![
        encode_utf8("/="@),
        encode_utf8("~/="@),
        encode_utf8("^/="@),
    ]
}

/// The division assignment operators of FunC.
pub fn division_assignment_set() -> (r: [&'static str; 3])
    ensures
        str_bytes(r@) == division_assignment_texts(),
{
    let set = ["/=", "~/=", "^/="];
    assert(str_bytes(set@) =~= division_assignment_texts());
    set
}

/// The modulo operators of FunC, with their rounding variants, as texts.
pub open spec fn modulo_texts() -> Seq<Seq<u8>> {
    seq![
        encode_utf8("%"@),
        encode_utf8("~%"@),
        encode_utf8("^%"@),
    ]
}

/// The modulo operators of FunC, with their rounding variants.
pub fn modulo_set() -> (r: [&'static str; 3])
    ensures
        str_bytes(r@) == modulo_texts(),
{
    let set = ["%", "~%", "^%"];
    assert(str_bytes(set@) =~= modulo_texts());
    set
}

/// The modulo assignment operators of FunC, as texts.
pub open spec fn modulo_assignment_texts() -> Seq<Seq<u8>> {
    seq![
        encode_utf8("%="@),
        encode_utf8("~%="@),
        encode_utf8("^%="@),
    ]
}

/// The modulo assignment operators of FunC.
pub fn modulo_assignment_set() -> (r: [&'static str; 3])
    ensures
        str_bytes(r@) == modulo_assignment_texts(),
{
    let set = ["%=", "~%=", "^%="];
    assert(str_bytes(set@) =~= modulo_assignment_texts());
    set
}

/// The shift operators of FunC, with their rounding variants, as texts.
pub open spec fn rounding_shift_texts() -> Seq<Seq<u8>> {
    seq![
        encode_utf8("<<"@),
        encode_utf8(">>"@),
        encode_utf8("~>>"@),
        encode_utf8("^>>"@),
    ]
}

/// The shift operators of FunC, with their rounding variants.
pub fn rounding_shift_set() -> (r: [&'static str; 4])
    ensures
        str_bytes(r@) == rounding_shift_texts(),
{
    let set = ["<<", ">>", "~>>", "^>>"];
    assert(str_bytes(set@) =~= rounding_shift_texts());
    set
}

/// The shift assignment operators of FunC, as texts.
pub open spec fn rounding_shift_assignment_texts() -> Seq<Seq<u8>> {
    seq![
        encode_utf8("<<="@),
        encode_utf8(">>="@),
        encode_utf8("~>>="@),
        encode_utf8("^>>="@),
    ]
}

/// The shift assignment operators of FunC.
pub fn rounding_shift_assignment_set() -> (r: [&'static str; 4])
    ensures
        str_bytes(r@) == rounding_shift_assignment_texts(),
{
    let set = ["<<=", ">>=", "~>>=", "^>>="];
    assert(str_bytes(set@) =~= rounding_shift_assignment_texts());
    set
}

/// The two loop control statements, as texts.
pub open spec fn loop_control_texts() -> Seq<Seq<u8>> {
    seq![
        encode_utf8("break"@),
        encode_utf8("continue"@),
    ]
}

/// The two loop control statements.
pub fn loop_control_set() -> (r: [&'static str; 2])
    ensures
        str_bytes(r@) == loop_control_texts(),
{
    let set = ["break", "continue"];
    assert(str_bytes(set@) =~= loop_control_texts());
    set
}

/// The two boolean literals, as texts.
pub open spec fn boolean_texts() -> Seq<Seq<u8>> {
    seq![
        encode_utf8("true"@),
        encode_utf8("false"@),
    ]
}

/// The two boolean literals.
pub fn boolean_set() -> (r: [&'static str; 2])
    ensures
        str_bytes(r@) == boolean_texts(),
{
    let set = ["true", "false"];
    assert(str_bytes(set@) =~= boolean_texts());
    set
}

} // verus!
