//! Fixed names and descriptors that the rewrites of the two runtime classes use.
use vstd::prelude::*;

verus! {

/// `paramInfo`
pub open spec fn spec_param_info() -> Seq<u8> {
    seq![112u8, 97u8, 114u8, 97u8, 109u8, 73u8, 110u8, 102u8, 111u8]
}

pub fn param_info() -> (r: Vec<u8>)
    ensures
        r@ == spec_param_info(),
{
    vec![112u8, 97u8, 114u8, 97u8, 109u8, 73u8, 110u8, 102u8, 111u8]
}

/// `[Ljava/lang/Object;`
pub open spec fn spec_object_array() -> Seq<u8> {
    seq![91u8, 76u8, 106u8, 97u8, 118u8, 97u8, 47u8, 108u8, 97u8, 110u8, 103u8, 47u8, 79u8, 98u8, 106u8, 101u8, 99u8, 116u8, 59u8]
}

pub fn object_array() -> (r: Vec<u8>)
    ensures
        r@ == spec_object_array(),
{
    vec![91u8, 76u8, 106u8, 97u8, 118u8, 97u8, 47u8, 108u8, 97u8, 110u8, 103u8, 47u8, 79u8, 98u8, 106u8, 101u8, 99u8, 116u8, 59u8]
}

/// `toString`
pub open spec fn spec_to_string() -> Seq<u8> {
    seq![116u8, 111u8, 83u8, 116u8, 114u8, 105u8, 110u8, 103u8]
}

pub fn to_string() -> (r: Vec<u8>)
    ensures
        r@ == spec_to_string(),
{
    vec![116u8, 111u8, 83u8, 116u8, 114u8, 105u8, 110u8, 103u8]
}

/// `()Ljava/lang/String;`
pub open spec fn spec_ret_string() -> Seq<u8> {
    seq![40u8, 41u8, 76u8, 106u8, 97u8, 118u8, 97u8, 47u8, 108u8, 97u8, 110u8, 103u8, 47u8, 83u8, 116u8, 114u8, 105u8, 110u8, 103u8, 59u8]
}

pub fn ret_string() -> (r: Vec<u8>)
    ensures
        r@ == spec_ret_string(),
{
    vec![40u8, 41u8, 76u8, 106u8, 97u8, 118u8, 97u8, 47u8, 108u8, 97u8, 110u8, 103u8, 47u8, 83u8, 116u8, 114u8, 105u8, 110u8, 103u8, 59u8]
}

/// `$$stack_param$$toString`
pub open spec fn spec_renamed_to_string() -> Seq<u8> {
    seq![36u8, 36u8, 115u8, 116u8, 97u8, 99u8, 107u8, 95u8, 112u8, 97u8, 114u8, 97u8, 109u8, 36u8, 36u8, 116u8, 111u8, 83u8, 116u8, 114u8, 105u8, 110u8, 103u8]
}

pub fn renamed_to_string() -> (r: Vec<u8>)
    ensures
        r@ == spec_renamed_to_string(),
{
    vec![36u8, 36u8, 115u8, 116u8, 97u8, 99u8, 107u8, 95u8, 112u8, 97u8, 114u8, 97u8, 109u8, 36u8, 36u8, 116u8, 111u8, 83u8, 116u8, 114u8, 105u8, 110u8, 103u8]
}

/// `stackParams`
pub open spec fn spec_stack_params() -> Seq<u8> {
    seq![115u8, 116u8, 97u8, 99u8, 107u8, 80u8, 97u8, 114u8, 97u8, 109u8, 115u8]
}

pub fn stack_params() -> (r: Vec<u8>)
    ensures
        r@ == spec_stack_params(),
{
    vec![115u8, 116u8, 97u8, 99u8, 107u8, 80u8, 97u8, 114u8, 97u8, 109u8, 115u8]
}

/// `[[Ljava/lang/Object;`
pub open spec fn spec_object_array_2d() -> Seq<u8> {
    seq![91u8, 91u8, 76u8, 106u8, 97u8, 118u8, 97u8, 47u8, 108u8, 97u8, 110u8, 103u8, 47u8, 79u8, 98u8, 106u8, 101u8, 99u8, 116u8, 59u8]
}

pub fn object_array_2d() -> (r: Vec<u8>)
    ensures
        r@ == spec_object_array_2d(),
{
    vec![91u8, 91u8, 76u8, 106u8, 97u8, 118u8, 97u8, 47u8, 108u8, 97u8, 110u8, 103u8, 47u8, 79u8, 98u8, 106u8, 101u8, 99u8, 116u8, 59u8]
}

/// `stackParamFillInStackTrace`
pub open spec fn spec_sp_fill() -> Seq<u8> {
    seq![115u8, 116u8, 97u8, 99u8, 107u8, 80u8, 97u8, 114u8, 97u8, 109u8, 70u8, 105u8, 108u8, 108u8, 73u8, 110u8, 83u8, 116u8, 97u8, 99u8, 107u8, 84u8, 114u8, 97u8, 99u8, 101u8]
}

pub fn sp_fill() -> (r: Vec<u8>)
    ensures
        r@ == spec_sp_fill(),
{
    vec![115u8, 116u8, 97u8, 99u8, 107u8, 80u8, 97u8, 114u8, 97u8, 109u8, 70u8, 105u8, 108u8, 108u8, 73u8, 110u8, 83u8, 116u8, 97u8, 99u8, 107u8, 84u8, 114u8, 97u8, 99u8, 101u8]
}

/// `(Ljava/lang/Thread;)Ljava/lang/Throwable;`
pub open spec fn spec_thread_to_throwable() -> Seq<u8> {
    seq![40u8, 76u8, 106u8, 97u8, 118u8, 97u8, 47u8, 108u8, 97u8, 110u8, 103u8, 47u8, 84u8, 104u8, 114u8, 101u8, 97u8, 100u8, 59u8, 41u8, 76u8, 106u8, 97u8, 118u8, 97u8, 47u8, 108u8, 97u8, 110u8, 103u8, 47u8, 84u8, 104u8, 114u8, 111u8, 119u8, 97u8, 98u8, 108u8, 101u8, 59u8]
}

pub fn thread_to_throwable() -> (r: Vec<u8>)
    ensures
        r@ == spec_thread_to_throwable(),
{
    vec![40u8, 76u8, 106u8, 97u8, 118u8, 97u8, 47u8, 108u8, 97u8, 110u8, 103u8, 47u8, 84u8, 104u8, 114u8, 101u8, 97u8, 100u8, 59u8, 41u8, 76u8, 106u8, 97u8, 118u8, 97u8, 47u8, 108u8, 97u8, 110u8, 103u8, 47u8, 84u8, 104u8, 114u8, 111u8, 119u8, 97u8, 98u8, 108u8, 101u8, 59u8]
}

/// `fillInStackTrace`
pub open spec fn spec_fill() -> Seq<u8> {
    seq![102u8, 105u8, 108u8, 108u8, 73u8, 110u8, 83u8, 116u8, 97u8, 99u8, 107u8, 84u8, 114u8, 97u8, 99u8, 101u8]
}

pub fn fill() -> (r: Vec<u8>)
    ensures
        r@ == spec_fill(),
{
    vec![102u8, 105u8, 108u8, 108u8, 73u8, 110u8, 83u8, 116u8, 97u8, 99u8, 107u8, 84u8, 114u8, 97u8, 99u8, 101u8]
}

/// `java/lang/Thread`
pub open spec fn spec_thread_class() -> Seq<u8> {
    seq![106u8, 97u8, 118u8, 97u8, 47u8, 108u8, 97u8, 110u8, 103u8, 47u8, 84u8, 104u8, 114u8, 101u8, 97u8, 100u8]
}

pub fn thread_class() -> (r: Vec<u8>)
    ensures
        r@ == spec_thread_class(),
{
    vec![106u8, 97u8, 118u8, 97u8, 47u8, 108u8, 97u8, 110u8, 103u8, 47u8, 84u8, 104u8, 114u8, 101u8, 97u8, 100u8]
}

/// `currentThread`
pub open spec fn spec_current_thread() -> Seq<u8> {
    seq![99u8, 117u8, 114u8, 114u8, 101u8, 110u8, 116u8, 84u8, 104u8, 114u8, 101u8, 97u8, 100u8]
}

pub fn current_thread() -> (r: Vec<u8>)
    ensures
        r@ == spec_current_thread(),
{
    vec![99u8, 117u8, 114u8, 114u8, 101u8, 110u8, 116u8, 84u8, 104u8, 114u8, 101u8, 97u8, 100u8]
}

/// `()Ljava/lang/Thread;`
pub open spec fn spec_ret_thread() -> Seq<u8> {
    seq![40u8, 41u8, 76u8, 106u8, 97u8, 118u8, 97u8, 47u8, 108u8, 97u8, 110u8, 103u8, 47u8, 84u8, 104u8, 114u8, 101u8, 97u8, 100u8, 59u8]
}

pub fn ret_thread() -> (r: Vec<u8>)
    ensures
        r@ == spec_ret_thread(),
{
    vec![40u8, 41u8, 76u8, 106u8, 97u8, 118u8, 97u8, 47u8, 108u8, 97u8, 110u8, 103u8, 47u8, 84u8, 104u8, 114u8, 101u8, 97u8, 100u8, 59u8]
}

/// `()Ljava/lang/Throwable;`
pub open spec fn spec_ret_throwable() -> Seq<u8> {
    seq![40u8, 41u8, 76u8, 106u8, 97u8, 118u8, 97u8, 47u8, 108u8, 97u8, 110u8, 103u8, 47u8, 84u8, 104u8, 114u8, 111u8, 119u8, 97u8, 98u8, 108u8, 101u8, 59u8]
}

pub fn ret_throwable() -> (r: Vec<u8>)
    ensures
        r@ == spec_ret_throwable(),
{
    vec![40u8, 41u8, 76u8, 106u8, 97u8, 118u8, 97u8, 47u8, 108u8, 97u8, 110u8, 103u8, 47u8, 84u8, 104u8, 114u8, 111u8, 119u8, 97u8, 98u8, 108u8, 101u8, 59u8]
}

/// `java/lang/Throwable`
pub open spec fn spec_throwable_class() -> Seq<u8> {
    seq![106u8, 97u8, 118u8, 97u8, 47u8, 108u8, 97u8, 110u8, 103u8, 47u8, 84u8, 104u8, 114u8, 111u8, 119u8, 97u8, 98u8, 108u8, 101u8]
}

pub fn throwable_class() -> (r: Vec<u8>)
    ensures
        r@ == spec_throwable_class(),
{
    vec![106u8, 97u8, 118u8, 97u8, 47u8, 108u8, 97u8, 110u8, 103u8, 47u8, 84u8, 104u8, 114u8, 111u8, 119u8, 97u8, 98u8, 108u8, 101u8]
}

/// `(I)Ljava/lang/Throwable;`
pub open spec fn spec_int_to_throwable() -> Seq<u8> {
    seq![40u8, 73u8, 41u8, 76u8, 106u8, 97u8, 118u8, 97u8, 47u8, 108u8, 97u8, 110u8, 103u8, 47u8, 84u8, 104u8, 114u8, 111u8, 119u8, 97u8, 98u8, 108u8, 101u8, 59u8]
}

pub fn int_to_throwable() -> (r: Vec<u8>)
    ensures
        r@ == spec_int_to_throwable(),
{
    vec![40u8, 73u8, 41u8, 76u8, 106u8, 97u8, 118u8, 97u8, 47u8, 108u8, 97u8, 110u8, 103u8, 47u8, 84u8, 104u8, 114u8, 111u8, 119u8, 97u8, 98u8, 108u8, 101u8, 59u8]
}

/// `getOurStackTrace`
pub open spec fn spec_get_our_trace() -> Seq<u8> {
    seq![103u8, 101u8, 116u8, 79u8, 117u8, 114u8, 83u8, 116u8, 97u8, 99u8, 107u8, 84u8, 114u8, 97u8, 99u8, 101u8]
}

pub fn get_our_trace() -> (r: Vec<u8>)
    ensures
        r@ == spec_get_our_trace(),
{
    vec![103u8, 101u8, 116u8, 79u8, 117u8, 114u8, 83u8, 116u8, 97u8, 99u8, 107u8, 84u8, 114u8, 97u8, 99u8, 101u8]
}

/// `()[Ljava/lang/StackTraceElement;`
pub open spec fn spec_ret_elements() -> Seq<u8> {
    seq![40u8, 41u8, 91u8, 76u8, 106u8, 97u8, 118u8, 97u8, 47u8, 108u8, 97u8, 110u8, 103u8, 47u8, 83u8, 116u8, 97u8, 99u8, 107u8, 84u8, 114u8, 97u8, 99u8, 101u8, 69u8, 108u8, 101u8, 109u8, 101u8, 110u8, 116u8, 59u8]
}

pub fn ret_elements() -> (r: Vec<u8>)
    ensures
        r@ == spec_ret_elements(),
{
    vec![40u8, 41u8, 91u8, 76u8, 106u8, 97u8, 118u8, 97u8, 47u8, 108u8, 97u8, 110u8, 103u8, 47u8, 83u8, 116u8, 97u8, 99u8, 107u8, 84u8, 114u8, 97u8, 99u8, 101u8, 69u8, 108u8, 101u8, 109u8, 101u8, 110u8, 116u8, 59u8]
}

/// `$$stack_param$$getOurStackTrace`
pub open spec fn spec_renamed_get_our_trace() -> Seq<u8> {
    seq![36u8, 36u8, 115u8, 116u8, 97u8, 99u8, 107u8, 95u8, 112u8, 97u8, 114u8, 97u8, 109u8, 36u8, 36u8, 103u8, 101u8, 116u8, 79u8, 117u8, 114u8, 83u8, 116u8, 97u8, 99u8, 107u8, 84u8, 114u8, 97u8, 99u8, 101u8]
}

pub fn renamed_get_our_trace() -> (r: Vec<u8>)
    ensures
        r@ == spec_renamed_get_our_trace(),
{
    vec![36u8, 36u8, 115u8, 116u8, 97u8, 99u8, 107u8, 95u8, 112u8, 97u8, 114u8, 97u8, 109u8, 36u8, 36u8, 103u8, 101u8, 116u8, 79u8, 117u8, 114u8, 83u8, 116u8, 97u8, 99u8, 107u8, 84u8, 114u8, 97u8, 99u8, 101u8]
}

/// `java/lang/StackTraceElement`
pub open spec fn spec_element_class() -> Seq<u8> {
    seq![106u8, 97u8, 118u8, 97u8, 47u8, 108u8, 97u8, 110u8, 103u8, 47u8, 83u8, 116u8, 97u8, 99u8, 107u8, 84u8, 114u8, 97u8, 99u8, 101u8, 69u8, 108u8, 101u8, 109u8, 101u8, 110u8, 116u8]
}

pub fn element_class() -> (r: Vec<u8>)
    ensures
        r@ == spec_element_class(),
{
    vec![106u8, 97u8, 118u8, 97u8, 47u8, 108u8, 97u8, 110u8, 103u8, 47u8, 83u8, 116u8, 97u8, 99u8, 107u8, 84u8, 114u8, 97u8, 99u8, 101u8, 69u8, 108u8, 101u8, 109u8, 101u8, 110u8, 116u8]
}

} // verus!
