use vstd::prelude::*;

use vstd::string::StringExecFns;
use vstd::utf8::encode_utf8;

verus! {

/// The directory, under a package, that holds build outputs.
pub const OUTPUTS_DIRECTORY_NAME: &'static str = "outputs/";

/// The extension of a proving key file.
pub const PROVING_KEY_FILE_EXTENSION: &'static str = ".lpk";

/// Whether the bytes `b[i..i + 7]` spell `outputs`.
pub open spec fn spells_outputs_at(b: Seq<u8>, i: int) -> bool {
    &&& b[i] == 111u8
    &&& b[i + 1] == 117u8
    &&& b[i + 2] == 116u8
    &&& b[i + 3] == 112u8
    &&& b[i + 4] == 117u8
    &&& b[i + 5] == 116u8
    &&& b[i + 6] == 115u8
}

/// Whether the last byte of `b` ends a component that is skipped when
/// comparing components: a separator, or a `.` component.
pub open spec fn skippable_end(b: Seq<u8>) -> bool {
    b.len() > 0 && (b.last() == 47u8 || (b.last() == 46u8 && (b.len() == 1 || b[b.len() - 2] == 47u8)))
}

/// Whether the path whose bytes are `b` has `outputs` as its last
/// component, empty and `.` components aside.
pub open spec fn ends_in_outputs(b: Seq<u8>) -> bool
    decreases b.len(),
{
    if skippable_end(b) {
        ends_in_outputs(b.drop_last())
    } else {
        &&& b.len() >= 7
        &&& spells_outputs_at(b, b.len() - 7)
        &&& (b.len() == 7 || b[b.len() - 8] == 47u8)
    }
}

/// `path` with `part` appended as a further component: a `/` goes between
/// them unless `path` is empty or already ends in one.
pub open spec fn join(path: Seq<char>, part: Seq<char>) -> Seq<char> {
    let b = encode_utf8(path);
    if b.len() == 0 || b.last() == 47u8 {
        path + part
    } else {
        path + seq!['/'] + part
    }
}

/// Where the proving key of `package_name` lies, given a path: a
/// directory gets the outputs directory (unless it is one already) and the
/// file name; any other path is the file itself.
pub open spec fn proving_key_path(package_name: Seq<char>, path: Seq<char>, path_is_dir: bool) -> Seq<char> {
    if !path_is_dir {
        path
    } else {
        let dir = if ends_in_outputs(encode_utf8(path)) {
            path
        } else {
            join(path, OUTPUTS_DIRECTORY_NAME@)
        };
        join(dir, package_name + PROVING_KEY_FILE_EXTENSION@)
    }
}

/// The proving key file of one package.
#[derive(Debug, Clone)]
pub struct ProvingKeyFile {
    pub package_name: String,
}

fn join_exec(path: String, part: &str) -> (r: String)
    ensures
        r@ == join(path@, part@),
{
    let bytes = path.as_str().as_bytes();
    let n = bytes.len();
    if n == 0 || bytes[n - 1] == 47u8 {
        path.concat(part)
    } else {
        proof {
            reveal_strlit("/");
        }
        let with_slash = path.concat("/");
        assert(with_slash@ == path@ + seq!['/']);
        with_slash.concat(part)
    }
}

impl ProvingKeyFile {
    pub fn new(package_name: &str) -> (r: ProvingKeyFile)
        ensures
            r.package_name@ == package_name@,
    {
        ProvingKeyFile { package_name: package_name.to_owned() }
    }

    /// The path of this package's proving key, for `path` and whether it
    /// names a directory.
    pub fn full_path(&self, path: &str, path_is_dir: bool) -> (r: String)
        ensures
            r@ == proving_key_path(self.package_name@, path@, path_is_dir),
    {
        self.setup_file_path(path, path_is_dir)
    }

    fn setup_file_path(&self, path: &str, path_is_dir: bool) -> (r: String)
        ensures
            r@ == proving_key_path(self.package_name@, path@, path_is_dir),
    {
        let owned = path.to_owned();
        if !path_is_dir {
            return owned;
        }
        let dir = if ends_in_outputs_exec(path.as_bytes()) {
            owned
        } else {
            join_exec(owned, OUTPUTS_DIRECTORY_NAME)
        };
        let file = self.package_name.clone().concat(PROVING_KEY_FILE_EXTENSION);
        join_exec(dir, file.as_str())
    }
}

fn ends_in_outputs_exec(b: &[u8]) -> (r: bool)
    ensures
        r == ends_in_outputs(b@),
{
    let mut n = b.len();
    assert(b@.subrange(0, n as int) =~= b@);
    while n > 0 && (b[n - 1] == 47u8 || (b[n - 1] == 46u8 && (n == 1 || b[n - 2] == 47u8)))
        invariant
            n <= b@.len(),
            ends_in_outputs(b@) == ends_in_outputs(b@.subrange(0, n as int)),
        decreases n,
    {
        assert(b@.subrange(0, n as int).drop_last() =~= b@.subrange(0, n - 1));
        n = n - 1;
    }
    let ghost t = b@.subrange(0, n as int);
    assert(!skippable_end(t));
    if n < 7 {
        return false;
    }
    let i = n - 7;
    let spelled = b[i] == 111u8 && b[i + 1] == 117u8 && b[i + 2] == 116u8 && b[i + 3] == 112u8 && b[i + 4]
        == 117u8 && b[i + 5] == 116u8 && b[i + 6] == 115u8;
    spelled && (n == 7 || b[n - 8] == 47u8)
}

} // verus!
