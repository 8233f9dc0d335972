use vstd::prelude::*;
use vstd::string::StrSliceExecFns;

verus! {

/// Whether a file name names a Rust module: it ends in `.rs`.
pub open spec fn is_rust_file_name(name: Seq<char>) -> bool {
    name.len() >= 3 && name.subrange(name.len() - 3, name.len() as int) == seq!['.', 'r', 's']
}

/// Whether the file name ends in `.rs`.
pub fn is_rust_module(file_name: &str) -> (r: bool)
    ensures
        r == is_rust_file_name(file_name@),
{
    let n = file_name.unicode_len();
    if n < 3 {
        return false;
    }
    let a = file_name.get_char(n - 3);
    let b = file_name.get_char(n - 2);
    let c = file_name.get_char(n - 1);
    let r = a == '.' && b == 'r' && c == 's';
    let ghost tail = file_name@.subrange(n - 3, n as int);
    assert(r ==> tail == seq!['.', 'r', 's']);
    assert(tail == seq!['.', 'r', 's'] ==> tail[0] == '.' && tail[1] == 'r' && tail[2] == 's');
    r
}

} // verus!
