//! The fixed byte patterns of the Fortran constructs this library handles:
//! the three construct keywords, the call keyword, the module block markers,
//! the audit marker text and the backup artifact name pieces.  Each pattern
//! exists once as a spec sequence and once as an executable builder proved
//! to produce exactly those bytes.

use vstd::prelude::*;

verus! {

/// The bytes of `"module"`.
pub open spec fn kw_module() -> Seq<u8> {
    seq![109u8, 111u8, 100u8, 117u8, 108u8, 101u8]
}

/// Executable copy of `kw_module`.
pub fn kw_module_vec() -> (r: Vec<u8>)
    ensures
        r@ == kw_module(),
{
    let mut v: Vec<u8> = Vec::new();
    v.push(109u8);
    v.push(111u8);
    v.push(100u8);
    v.push(117u8);
    v.push(108u8);
    v.push(101u8);
    proof {
        assert(v@ =~= kw_module());
    }
    v
}

/// The bytes of `"function"`.
pub open spec fn kw_function() -> Seq<u8> {
    seq![102u8, 117u8, 110u8, 99u8, 116u8, 105u8, 111u8, 110u8]
}

/// Executable copy of `kw_function`.
pub fn kw_function_vec() -> (r: Vec<u8>)
    ensures
        r@ == kw_function(),
{
    let mut v: Vec<u8> = Vec::new();
    v.push(102u8);
    v.push(117u8);
    v.push(110u8);
    v.push(99u8);
    v.push(116u8);
    v.push(105u8);
    v.push(111u8);
    v.push(110u8);
    proof {
        assert(v@ =~= kw_function());
    }
    v
}

/// The bytes of `"subroutine"`.
pub open spec fn kw_subroutine() -> Seq<u8> {
    seq![115u8, 117u8, 98u8, 114u8, 111u8, 117u8, 116u8, 105u8, 110u8, 101u8]
}

/// Executable copy of `kw_subroutine`.
pub fn kw_subroutine_vec() -> (r: Vec<u8>)
    ensures
        r@ == kw_subroutine(),
{
    let mut v: Vec<u8> = Vec::new();
    v.push(115u8);
    v.push(117u8);
    v.push(98u8);
    v.push(114u8);
    v.push(111u8);
    v.push(117u8);
    v.push(116u8);
    v.push(105u8);
    v.push(110u8);
    v.push(101u8);
    proof {
        assert(v@ =~= kw_subroutine());
    }
    v
}

/// The bytes of `"call"`.
pub open spec fn kw_call() -> Seq<u8> {
    seq![99u8, 97u8, 108u8, 108u8]
}

/// Executable copy of `kw_call`.
pub fn kw_call_vec() -> (r: Vec<u8>)
    ensures
        r@ == kw_call(),
{
    let mut v: Vec<u8> = Vec::new();
    v.push(99u8);
    v.push(97u8);
    v.push(108u8);
    v.push(108u8);
    proof {
        assert(v@ =~= kw_call());
    }
    v
}

/// The bytes of `"module "`.
pub open spec fn module_open_marker() -> Seq<u8> {
    seq![109u8, 111u8, 100u8, 117u8, 108u8, 101u8, 32u8]
}

/// Executable copy of `module_open_marker`.
pub fn module_open_marker_vec() -> (r: Vec<u8>)
    ensures
        r@ == module_open_marker(),
{
    let mut v: Vec<u8> = Vec::new();
    v.push(109u8);
    v.push(111u8);
    v.push(100u8);
    v.push(117u8);
    v.push(108u8);
    v.push(101u8);
    v.push(32u8);
    proof {
        assert(v@ =~= module_open_marker());
    }
    v
}

/// The bytes of `"end module"`.
pub open spec fn module_close_marker() -> Seq<u8> {
    seq![101u8, 110u8, 100u8, 32u8, 109u8, 111u8, 100u8, 117u8, 108u8, 101u8]
}

/// Executable copy of `module_close_marker`.
pub fn module_close_marker_vec() -> (r: Vec<u8>)
    ensures
        r@ == module_close_marker(),
{
    let mut v: Vec<u8> = Vec::new();
    v.push(101u8);
    v.push(110u8);
    v.push(100u8);
    v.push(32u8);
    v.push(109u8);
    v.push(111u8);
    v.push(100u8);
    v.push(117u8);
    v.push(108u8);
    v.push(101u8);
    proof {
        assert(v@ =~= module_close_marker());
    }
    v
}

/// The bytes of `" ! Code removed by sparseFortran application on date "`.
pub open spec fn marker_head() -> Seq<u8> {
    seq![32u8, 33u8, 32u8, 67u8, 111u8, 100u8, 101u8, 32u8, 114u8, 101u8, 109u8, 111u8, 118u8, 101u8, 100u8, 32u8, 98u8, 121u8, 32u8, 115u8, 112u8, 97u8, 114u8, 115u8, 101u8, 70u8, 111u8, 114u8, 116u8, 114u8, 97u8, 110u8, 32u8, 97u8, 112u8, 112u8, 108u8, 105u8, 99u8, 97u8, 116u8, 105u8, 111u8, 110u8, 32u8, 111u8, 110u8, 32u8, 100u8, 97u8, 116u8, 101u8, 32u8]
}

/// Executable copy of `marker_head`.
pub fn marker_head_vec() -> (r: Vec<u8>)
    ensures
        r@ == marker_head(),
{
    let mut v: Vec<u8> = Vec::new();
    v.push(32u8);
    v.push(33u8);
    v.push(32u8);
    v.push(67u8);
    v.push(111u8);
    v.push(100u8);
    v.push(101u8);
    v.push(32u8);
    v.push(114u8);
    v.push(101u8);
    v.push(109u8);
    v.push(111u8);
    v.push(118u8);
    v.push(101u8);
    v.push(100u8);
    v.push(32u8);
    v.push(98u8);
    v.push(121u8);
    v.push(32u8);
    v.push(115u8);
    v.push(112u8);
    v.push(97u8);
    v.push(114u8);
    v.push(115u8);
    v.push(101u8);
    v.push(70u8);
    v.push(111u8);
    v.push(114u8);
    v.push(116u8);
    v.push(114u8);
    v.push(97u8);
    v.push(110u8);
    v.push(32u8);
    v.push(97u8);
    v.push(112u8);
    v.push(112u8);
    v.push(108u8);
    v.push(105u8);
    v.push(99u8);
    v.push(97u8);
    v.push(116u8);
    v.push(105u8);
    v.push(111u8);
    v.push(110u8);
    v.push(32u8);
    v.push(111u8);
    v.push(110u8);
    v.push(32u8);
    v.push(100u8);
    v.push(97u8);
    v.push(116u8);
    v.push(101u8);
    v.push(32u8);
    proof {
        assert(v@ =~= marker_head());
    }
    v
}

/// The bytes of `" "`.
pub open spec fn marker_tail() -> Seq<u8> {
    seq![32u8]
}

/// Executable copy of `marker_tail`.
pub fn marker_tail_vec() -> (r: Vec<u8>)
    ensures
        r@ == marker_tail(),
{
    let mut v: Vec<u8> = Vec::new();
    v.push(32u8);
    proof {
        assert(v@ =~= marker_tail());
    }
    v
}

/// The bytes of `"bkp/"`.
pub open spec fn backup_dir_prefix() -> Seq<u8> {
    seq![98u8, 107u8, 112u8, 47u8]
}

/// Executable copy of `backup_dir_prefix`.
pub fn backup_dir_prefix_vec() -> (r: Vec<u8>)
    ensures
        r@ == backup_dir_prefix(),
{
    let mut v: Vec<u8> = Vec::new();
    v.push(98u8);
    v.push(107u8);
    v.push(112u8);
    v.push(47u8);
    proof {
        assert(v@ =~= backup_dir_prefix());
    }
    v
}

/// The bytes of `"-"`.
pub open spec fn backup_sep() -> Seq<u8> {
    seq![45u8]
}

/// Executable copy of `backup_sep`.
pub fn backup_sep_vec() -> (r: Vec<u8>)
    ensures
        r@ == backup_sep(),
{
    let mut v: Vec<u8> = Vec::new();
    v.push(45u8);
    proof {
        assert(v@ =~= backup_sep());
    }
    v
}

/// The bytes of `".f90"`.
pub open spec fn backup_ext() -> Seq<u8> {
    seq![46u8, 102u8, 57u8, 48u8]
}

/// Executable copy of `backup_ext`.
pub fn backup_ext_vec() -> (r: Vec<u8>)
    ensures
        r@ == backup_ext(),
{
    let mut v: Vec<u8> = Vec::new();
    v.push(46u8);
    v.push(102u8);
    v.push(57u8);
    v.push(48u8);
    proof {
        assert(v@ =~= backup_ext());
    }
    v
}

/// The bytes of `"y"`.
pub open spec fn token_yes() -> Seq<u8> {
    seq![121u8]
}

/// Executable copy of `token_yes`.
pub fn token_yes_vec() -> (r: Vec<u8>)
    ensures
        r@ == token_yes(),
{
    let mut v: Vec<u8> = Vec::new();
    v.push(121u8);
    proof {
        assert(v@ =~= token_yes());
    }
    v
}

/// The bytes of `"all"`.
pub open spec fn token_all() -> Seq<u8> {
    seq![97u8, 108u8, 108u8]
}

/// Executable copy of `token_all`.
pub fn token_all_vec() -> (r: Vec<u8>)
    ensures
        r@ == token_all(),
{
    let mut v: Vec<u8> = Vec::new();
    v.push(97u8);
    v.push(108u8);
    v.push(108u8);
    proof {
        assert(v@ =~= token_all());
    }
    v
}

/// The bytes of `"end "`.
pub open spec fn end_prefix() -> Seq<u8> {
    seq![101u8, 110u8, 100u8, 32u8]
}

/// Executable copy of `end_prefix`.
pub fn end_prefix_vec() -> (r: Vec<u8>)
    ensures
        r@ == end_prefix(),
{
    let mut v: Vec<u8> = Vec::new();
    v.push(101u8);
    v.push(110u8);
    v.push(100u8);
    v.push(32u8);
    proof {
        assert(v@ =~= end_prefix());
    }
    v
}

/// The bytes of `" "`.
pub open spec fn single_space() -> Seq<u8> {
    seq![32u8]
}

/// Executable copy of `single_space`.
pub fn single_space_vec() -> (r: Vec<u8>)
    ensures
        r@ == single_space(),
{
    let mut v: Vec<u8> = Vec::new();
    v.push(32u8);
    proof {
        assert(v@ =~= single_space());
    }
    v
}

/// The bytes of `"("`.
pub open spec fn open_paren() -> Seq<u8> {
    seq![40u8]
}

/// Executable copy of `open_paren`.
pub fn open_paren_vec() -> (r: Vec<u8>)
    ensures
        r@ == open_paren(),
{
    let mut v: Vec<u8> = Vec::new();
    v.push(40u8);
    proof {
        assert(v@ =~= open_paren());
    }
    v
}

} // verus!
