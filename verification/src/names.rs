//! File names: which of them name a container file, and the name under which
//! its export is written.

use vstd::prelude::*;
use vstd::string::*;

verus! {

/// Whether `extension` is the extension of the file name `name`: the part
/// after the last dot of a name that has something before that dot.
pub open spec fn has_extension(name: Seq<char>, extension: Seq<char>) -> bool {
    &&& !extension.contains('.')
    &&& name.len() > extension.len() + 1
    &&& name[name.len() - extension.len() - 1] == '.'
    &&& name.subrange(name.len() - extension.len(), name.len() as int) == extension
    &&& name != seq!['.', '.']
}

/// The extension of a container file.
pub open spec fn container_extension() -> Seq<char> {
    "swf"@
}

/// Whether `name` names a container file. The match is exact: case counts.
pub open spec fn is_container(name: Seq<char>) -> bool {
    has_extension(name, container_extension())
}

/// A container's name without its dot and extension.
pub open spec fn container_stem(name: Seq<char>) -> Seq<char>
    recommends
        is_container(name),
{
    name.subrange(0, name.len() - container_extension().len() - 1)
}

/// The name under which a container's export is written: the stem, an
/// underscore and the extension, with no extension of its own.
pub open spec fn export_name(name: Seq<char>) -> Seq<char>
    recommends
        is_container(name),
{
    container_stem(name) + "_swf"@
}

/// The three characters of the container extension.
pub proof fn container_extension_chars()
    ensures
        container_extension() =~= seq!['s', 'w', 'f'],
        !container_extension().contains('.'),
{
    reveal_strlit("swf");
}

/// A file name has at most one extension.
pub proof fn extension_is_unique(name: Seq<char>, first: Seq<char>, second: Seq<char>)
    requires
        has_extension(name, first),
        has_extension(name, second),
    ensures
        first == second,
{
    let n = name.len() as int;
    if first.len() < second.len() {
        let at = n - first.len() - 1;
        assert(second[at - (n - second.len())] == name[at]);
        assert(second.contains('.'));
    } else if second.len() < first.len() {
        let at = n - second.len() - 1;
        assert(first[at - (n - first.len())] == name[at]);
        assert(first.contains('.'));
    }
}

/// A container's name is its stem, a dot and the extension, and the stem is not empty.
pub proof fn container_name_parts(name: Seq<char>)
    requires
        is_container(name),
    ensures
        container_stem(name).len() > 0,
        name == container_stem(name) + seq!['.'] + container_extension(),
        export_name(name).len() == name.len(),
{
    reveal_strlit("swf");
    reveal_strlit("_swf");
    assert(name =~= container_stem(name) + seq!['.'] + container_extension());
}

/// Whether `name` names a container file.
pub fn is_container_name(name: &str) -> (found: bool)
    ensures
        found == is_container(name@),
{
    proof {
        container_extension_chars();
    }
    let n = name.unicode_len();
    if n <= 4 {
        return false;
    }
    let found = name.get_char(n - 4) == '.' && name.get_char(n - 3) == 's' && name.get_char(n - 2)
        == 'w' && name.get_char(n - 1) == 'f';
    proof {
        let tail = name@.subrange(n - 3, n as int);
        if found {
            assert(tail =~= seq!['s', 'w', 'f']);
        } else if name@[n - 4] == '.' {
            assert(tail[0] == name@[n - 3]);
            assert(tail[1] == name@[n - 2]);
            assert(tail[2] == name@[n - 1]);
        }
    }
    found
}

/// The name under which the export of `name` is written, if `name` names a
/// container file.
pub fn export_file_name(name: &str) -> (exported: Option<String>)
    ensures
        exported is Some <==> is_container(name@),
        exported is Some ==> exported->Some_0@ == export_name(name@),
{
    if !is_container_name(name) {
        return None;
    }
    proof {
        container_extension_chars();
    }
    let n = name.unicode_len();
    let stem = name.substring_char(0, n - 4);
    let mut exported = String::from_str(stem);
    exported.append("_swf");
    Some(exported)
}

} // verus!
