//! File-system paths, held as the bytes that the operating system uses.
//!
//! Everything here is lexical: no function looks at the disk. The separator
//! is `/`. A path is read as a sequence of parts, in which repeated
//! separators, a separator at the end and `.` segments that are not the first
//! one do not count.

use vstd::prelude::*;
use vstd::utf8::{
    decode_utf8, encode_utf8, is_ascii_chars, is_ascii_chars_encode_utf8,
    is_ascii_chars_nat_bound, valid_utf8,
};

use crate::text::ends_with;

verus! {

/// A path.
#[derive(Debug)]
pub struct FilePath {
    pub bytes: Vec<u8>,
}

impl View for FilePath {
    type V = Seq<u8>;

    open spec fn view(&self) -> Seq<u8> {
        self.bytes@
    }
}

/// The byte that separates the parts of a path.
pub const SEPARATOR: u8 = 47;

/// The byte of which the names of the current and the parent directory are
/// made.
pub const DOT: u8 = 46;

/// The other byte that separates the parts of a path of Windows.
pub const BACKSLASH: u8 = 92;

/// The byte behind the letter of a drive.
pub const COLON: u8 = 58;

/// The bytes of a text.
pub open spec fn bytes_of(text: Seq<char>) -> Seq<u8> {
    encode_utf8(text)
}

/// What `String::from_utf8_lossy` makes of bytes.
pub uninterp spec fn lossy_text(bytes: Seq<u8>) -> Seq<char>;

/// Whether bytes end with a text of ASCII characters.
pub open spec fn has_ascii_tail(bytes: Seq<u8>, tail: Seq<char>) -> bool {
    &&& is_ascii_chars(tail)
    &&& bytes.len() >= tail.len()
    &&& bytes.skip(bytes.len() - tail.len()) == bytes_of(tail)
}

/// Calls `String::from_utf8_lossy`. Bytes that are UTF-8 become the text that
/// they encode, and ASCII characters at the end are kept whatever stands before
/// them, since they are never part of a sequence that is replaced. What is put
/// in the place of such a sequence is not stated, only that it depends on the
/// bytes alone.
#[verifier::external_body]
pub(crate) fn text_from_bytes(bytes: &Vec<u8>) -> (text: String)
    ensures
        text@ == lossy_text(bytes@),
        valid_utf8(bytes@) ==> text@ == decode_utf8(bytes@),
        forall|tail: Seq<char>| #[trigger]
            has_ascii_tail(bytes@, tail) ==> ends_with(text@, tail),
{
    String::from_utf8_lossy(bytes).into_owned()
}

/// Calls `dirs::home_dir`. The directory comes from the environment of the
/// process, so nothing is claimed of it.
#[verifier::external_body]
pub(crate) fn home_dir() -> (home: Option<FilePath>) {
    dirs::home_dir().map(|path| FilePath { bytes: path.into_os_string().into_encoded_bytes() })
}

/// Whether `home` can be what `dirs::home_dir` says, by its bytes.
pub closed spec fn may_be_home(home: Option<Seq<u8>>) -> bool {
    exists|found: Option<FilePath>| #[trigger]
        call_ensures(home_dir, (), found) && home == match found {
            Some(path) => Some(path@),
            None => None,
        }
}

fn asked<H: Fn() -> Option<FilePath>>(home: H) -> (found: Option<FilePath>)
    requires
        call_requires(home, ()),
    ensures
        call_ensures(home, (), found),
{
    home()
}

/// The user's home directory, as the environment of the process has it.
pub(crate) fn user_home() -> (home: Option<FilePath>)
    ensures
        match home {
            Some(path) => may_be_home(Some(path@)),
            None => may_be_home(None),
        },
{
    asked(home_dir)
}

/// Whether two byte sequences are the same.
pub fn same_bytes(left: &[u8], right: &[u8]) -> (same: bool)
    ensures
        same == (left@ == right@),
{
    if left.len() != right.len() {
        return false;
    }
    let mut i: usize = 0;
    while i < left.len()
        invariant
            i <= left@.len(),
            left@.len() == right@.len(),
            forall|j: int| 0 <= j < i ==> left@[j] == right@[j],
        decreases left@.len() - i,
    {
        if left[i] != right[i] {
            return false;
        }
        i = i + 1;
    }
    proof {
        assert(left@ =~= right@);
    }
    true
}

fn append_bytes(target: &mut Vec<u8>, source: &[u8], from: usize, to: usize)
    requires
        from <= to <= source@.len(),
    ensures
        final(target)@ == old(target)@ + source@.subrange(from as int, to as int),
{
    let mut i: usize = from;
    proof {
        assert(target@ =~= old(target)@ + source@.subrange(from as int, from as int));
    }
    while i < to
        invariant
            from <= i <= to <= source@.len(),
            target@ == old(target)@ + source@.subrange(from as int, i as int),
        decreases to - i,
    {
        target.push(source[i]);
        i = i + 1;
        proof {
            assert(target@ =~= old(target)@ + source@.subrange(from as int, i as int));
        }
    }
}

fn bytes_between(source: &[u8], from: usize, to: usize) -> (bytes: Vec<u8>)
    requires
        from <= to <= source@.len(),
    ensures
        bytes@ == source@.subrange(from as int, to as int),
{
    let mut bytes: Vec<u8> = Vec::new();
    append_bytes(&mut bytes, source, from, to);
    proof {
        assert(bytes@ =~= source@.subrange(from as int, to as int));
    }
    bytes
}

/// One part of a path.
pub enum PathPart {
    Root,
    Current,
    Parent,
    Normal(Seq<u8>),
}

/// One part of a path.
#[derive(Debug)]
pub enum Component {
    RootDir,
    CurDir,
    ParentDir,
    Normal(Vec<u8>),
}

impl View for Component {
    type V = PathPart;

    open spec fn view(&self) -> PathPart {
        match self {
            Component::RootDir => PathPart::Root,
            Component::CurDir => PathPart::Current,
            Component::ParentDir => PathPart::Parent,
            Component::Normal(name) => PathPart::Normal(name@),
        }
    }
}

/// The pieces of a path between its separators.
pub open spec fn segments(path: Seq<u8>) -> Seq<Seq<u8>>
    decreases path.len(),
{
    if path.len() == 0 {
        seq![Seq::empty()]
    } else {
        let before = segments(path.drop_last());
        if path.last() == SEPARATOR {
            before.push(Seq::empty())
        } else {
            before.drop_last().push(before.last().push(path.last()))
        }
    }
}

/// The part that a piece between separators stands for, if any.
pub open spec fn segment_part(segment: Seq<u8>) -> Option<PathPart> {
    if segment.len() == 0 || segment == seq![DOT] {
        None
    } else if segment == seq![DOT, DOT] {
        Some(PathPart::Parent)
    } else {
        Some(PathPart::Normal(segment))
    }
}

/// The part that a path starts with because of its first byte: the root, or
/// the current directory where it is written out.
pub open spec fn leading_part(path: Seq<u8>) -> Seq<PathPart> {
    if path.len() > 0 && path[0] == SEPARATOR {
        seq![PathPart::Root]
    } else if path.len() > 0 && path[0] == DOT && (path.len() == 1 || path[1] == SEPARATOR) {
        seq![PathPart::Current]
    } else {
        Seq::empty()
    }
}

/// The parts of a path, in order.
pub open spec fn path_parts(path: Seq<u8>) -> Seq<PathPart> {
    leading_part(path) + segments(path).filter_map(|segment: Seq<u8>| segment_part(segment))
}

/// The views of a list of components.
pub open spec fn component_views(components: Seq<Component>) -> Seq<PathPart> {
    Seq::new(components.len(), |i: int| components[i]@)
}

/// `path` with `name` below it; `name` alone if it starts at the root.
pub open spec fn joined_path(path: Seq<u8>, name: Seq<u8>) -> Seq<u8> {
    if name.len() > 0 && name[0] == SEPARATOR {
        name
    } else if path.len() == 0 || path.last() == SEPARATOR {
        path + name
    } else {
        path.push(SEPARATOR) + name
    }
}

/// `path` without the separators and `.` segments at its end.
pub open spec fn stripped(path: Seq<u8>) -> Seq<u8>
    decreases path.len(),
{
    if path.len() > 1 && path.last() == SEPARATOR {
        stripped(path.drop_last())
    } else if path.len() > 1 && path.last() == DOT && path[path.len() - 2] == SEPARATOR {
        stripped(path.drop_last())
    } else {
        path
    }
}

/// Where the piece behind the last separator starts.
pub open spec fn name_start(path: Seq<u8>) -> nat
    decreases path.len(),
{
    if path.len() == 0 {
        0
    } else if path.last() == SEPARATOR {
        path.len()
    } else {
        name_start(path.drop_last())
    }
}

/// Whether a path without anything to strip at its end has no part but the root.
pub open spec fn only_root(path: Seq<u8>) -> bool {
    path.len() == 0 || path == seq![SEPARATOR]
}

/// The path without its last part.
pub open spec fn parent_path(path: Seq<u8>) -> Option<Seq<u8>> {
    let whole = stripped(path);
    if only_root(whole) {
        None
    } else {
        Some(stripped(whole.take(name_start(whole) as int)))
    }
}

/// The last part of a path, if it is a name.
pub open spec fn path_name(path: Seq<u8>) -> Option<Seq<u8>> {
    let whole = stripped(path);
    let name = whole.skip(name_start(whole) as int);
    if only_root(whole) || name == seq![DOT] || name == seq![DOT, DOT] {
        None
    } else {
        Some(name)
    }
}

/// A path of Windows with the separators written in one way.
pub open spec fn slashed(path: Seq<u8>) -> Seq<u8> {
    Seq::new(
        path.len(),
        |i: int|
            if path[i] == BACKSLASH {
                SEPARATOR
            } else {
                path[i]
            },
    )
}

/// What stands behind the name that a path starts with.
pub open spec fn behind_name(path: Seq<u8>) -> Seq<u8>
    decreases path.len(),
{
    if path.len() > 0 && path[0] != SEPARATOR {
        behind_name(path.drop_first())
    } else {
        path
    }
}

/// A path of Windows without the drive or the network share that it starts
/// with.
pub open spec fn without_drive(path: Seq<u8>) -> Seq<u8> {
    if path.len() > 1 && path[0] == SEPARATOR && path[1] == SEPARATOR {
        let behind_server = behind_name(path.skip(2));
        if behind_server.len() == 0 {
            behind_server
        } else {
            behind_name(behind_server.skip(1))
        }
    } else if path.len() > 1 && path[1] == COLON && is_drive_letter(path[0]) {
        path.skip(2)
    } else {
        path
    }
}

/// Whether a byte is a letter that a drive can have.
pub open spec fn is_drive_letter(byte: u8) -> bool {
    (65 <= byte <= 90) || (97 <= byte <= 122)
}

/// The last part of a path of Windows, if it is a name. There both `/` and `\`
/// separate, and a drive or a network share is no name.
pub open spec fn windows_path_name(path: Seq<u8>) -> Option<Seq<u8>> {
    path_name(without_drive(slashed(path)))
}

/// The position of the last dot in a name, or the length of the name if there
/// is no dot but perhaps in front.
pub open spec fn stem_end(name: Seq<u8>) -> nat {
    stem_end_within(name, name.len())
}

/// The position of the last dot among the first `count` bytes, the first byte
/// aside, or the length of the name if there is none.
pub open spec fn stem_end_within(name: Seq<u8>, count: nat) -> nat
    decreases count,
{
    if count <= 1 {
        name.len()
    } else if name[count - 1] == DOT {
        (count - 1) as nat
    } else {
        stem_end_within(name, (count - 1) as nat)
    }
}

/// The extension of a path: what stands behind the last dot of its name,
/// unless that dot is the first byte of the name.
pub open spec fn path_extension(path: Seq<u8>) -> Option<Seq<u8>> {
    match path_name(path) {
        Some(name) => if stem_end(name) < name.len() {
            Some(name.skip(stem_end(name) as int + 1))
        } else {
            None
        },
        None => None,
    }
}

/// The path with another extension, or without one if that is empty; the path
/// itself if it has no name.
pub open spec fn path_with_extension(path: Seq<u8>, extension: Seq<u8>) -> Seq<u8> {
    match path_name(path) {
        Some(name) => {
            let whole = stripped(path);
            let stem = whole.take(name_start(whole) as int) + name.take(stem_end(name) as int);
            if extension.len() == 0 {
                stem
            } else {
                stem.push(DOT) + extension
            }
        },
        None => path,
    }
}

/// What is stripped stands at the end.
pub proof fn lemma_stripped(path: Seq<u8>)
    ensures
        stripped(path).len() <= path.len(),
        stripped(path) == path.take(stripped(path).len() as int),
        stripped(path).len() > 1 ==> stripped(path).last() != SEPARATOR,
    decreases path.len(),
{
    if path.len() > 1 && (path.last() == SEPARATOR || (path.last() == DOT && path[path.len() - 2]
        == SEPARATOR)) {
        lemma_stripped(path.drop_last());
        let rest = stripped(path.drop_last());
        assert(path.drop_last().take(rest.len() as int) =~= path.take(rest.len() as int));
    } else {
        assert(path.take(path.len() as int) =~= path);
    }
}

/// The name starts behind a separator, and holds none.
pub proof fn lemma_name_start(path: Seq<u8>)
    ensures
        name_start(path) <= path.len(),
        name_start(path) > 0 ==> path[name_start(path) - 1] == SEPARATOR,
        forall|i: int| name_start(path) <= i < path.len() ==> path[i] != SEPARATOR,
    decreases path.len(),
{
    if path.len() > 0 && path.last() != SEPARATOR {
        lemma_name_start(path.drop_last());
        assert forall|i: int| name_start(path) <= i < path.len() implies path[i] != SEPARATOR by {
            if i < path.len() - 1 {
                assert(path.drop_last()[i] == path[i]);
            }
        }
    }
}

/// A path's parent is shorter than the path.
pub proof fn lemma_parent_shorter(path: Seq<u8>)
    ensures
        parent_path(path) is Some ==> parent_path(path)->0.len() < path.len(),
{
    let whole = stripped(path);
    lemma_stripped(path);
    if !only_root(whole) {
        lemma_name_start(whole);
        let above = whole.take(name_start(whole) as int);
        lemma_stripped(above);
        if whole.len() == 1 {
            assert(whole =~= seq![whole[0]]);
        }
    }
}

/// The last dot that ends the stem of a name is never its first byte.
pub proof fn lemma_stem_end(name: Seq<u8>, count: nat)
    requires
        0 < name.len(),
        count <= name.len(),
    ensures
        0 < stem_end_within(name, count) <= name.len(),
    decreases count,
{
    if count > 1 {
        lemma_stem_end(name, (count - 1) as nat);
    }
}

/// The name that was joined to a path is the name of the whole.
pub proof fn lemma_name_of_joined(dir: Seq<u8>, name: Seq<u8>)
    requires
        is_plain_name(name),
    ensures
        stripped(joined_path(dir, name)) == joined_path(dir, name),
        name_start(joined_path(dir, name)) == joined_path(dir, name).len() - name.len(),
        path_name(joined_path(dir, name)) == Some(name),
{
    let path = joined_path(dir, name);
    let start = path.len() - name.len();
    assert(name[0] != SEPARATOR);
    assert(path.skip(start) =~= name);
    assert forall|i: int| start <= i < path.len() implies path[i] != SEPARATOR by {
        assert(path[i] == path.skip(start)[i - start]);
    }
    assert(start > 0 ==> path[start - 1] == SEPARATOR);
    if path.last() == DOT && path.len() > 1 && path[path.len() - 2] == SEPARATOR {
        assert(name =~= seq![DOT]);
    }
    lemma_name_start(path);
    if path.len() == 1 {
        assert(path[0] == name[0]);
    }
}

/// The path, its parent, the parent of that, and so on.
pub open spec fn ancestors(path: Seq<u8>) -> Seq<Seq<u8>>
    decreases path.len(),
{
    match parent_path(path) {
        Some(parent) => {
            proof {
                lemma_parent_shorter(path);
            }
            seq![path] + ancestors(parent)
        },
        None => seq![path],
    }
}

fn stripped_length(bytes: &[u8], length: usize) -> (end: usize)
    requires
        length <= bytes@.len(),
    ensures
        end <= length,
        stripped(bytes@.take(length as int)) == bytes@.take(end as int),
{
    let mut end: usize = length;
    while end > 1 && (bytes[end - 1] == SEPARATOR || (bytes[end - 1] == DOT && bytes[end - 2]
        == SEPARATOR))
        invariant
            end <= length <= bytes@.len(),
            stripped(bytes@.take(length as int)) == stripped(bytes@.take(end as int)),
        decreases end,
    {
        proof {
            assert(bytes@.take(end as int).drop_last() =~= bytes@.take(end - 1));
        }
        end = end - 1;
    }
    end
}

fn name_position(bytes: &[u8], length: usize) -> (start: usize)
    requires
        length <= bytes@.len(),
    ensures
        start <= length,
        start == name_start(bytes@.take(length as int)),
{
    let mut start: usize = length;
    while start > 0 && bytes[start - 1] != SEPARATOR
        invariant
            start <= length <= bytes@.len(),
            name_start(bytes@.take(length as int)) == name_start(bytes@.take(start as int)),
        decreases start,
    {
        proof {
            assert(bytes@.take(start as int).drop_last() =~= bytes@.take(start - 1));
        }
        start = start - 1;
    }
    start
}

fn slashed_bytes(bytes: &[u8]) -> (result: Vec<u8>)
    ensures
        result@ == slashed(bytes@),
{
    let mut result: Vec<u8> = Vec::new();
    let mut i: usize = 0;
    while i < bytes.len()
        invariant
            i <= bytes@.len(),
            result@ == slashed(bytes@).take(i as int),
        decreases bytes@.len() - i,
    {
        if bytes[i] == BACKSLASH {
            result.push(SEPARATOR);
        } else {
            result.push(bytes[i]);
        }
        i = i + 1;
        proof {
            assert(result@ =~= slashed(bytes@).take(i as int));
        }
    }
    proof {
        assert(slashed(bytes@).take(bytes@.len() as int) =~= slashed(bytes@));
    }
    result
}

fn name_end(bytes: &[u8], from: usize) -> (end: usize)
    requires
        from <= bytes@.len(),
    ensures
        from <= end <= bytes@.len(),
        behind_name(bytes@.skip(from as int)) == bytes@.skip(end as int),
{
    let mut end: usize = from;
    while end < bytes.len() && bytes[end] != SEPARATOR
        invariant
            from <= end <= bytes@.len(),
            behind_name(bytes@.skip(from as int)) == behind_name(bytes@.skip(end as int)),
        decreases bytes@.len() - end,
    {
        proof {
            assert(bytes@.skip(end as int).drop_first() =~= bytes@.skip(end + 1));
        }
        end = end + 1;
    }
    end
}

fn dot_position(name: &[u8]) -> (end: usize)
    ensures
        end == stem_end(name@),
        end <= name@.len(),
{
    let mut count: usize = name.len();
    while count > 1 && name[count - 1] != DOT
        invariant
            count <= name@.len(),
            stem_end(name@) == stem_end_within(name@, count as nat),
        decreases count,
    {
        count = count - 1;
    }
    if count > 1 {
        count - 1
    } else {
        name.len()
    }
}

impl FilePath {
    /// The path that a text writes.
    pub fn new(text: &str) -> (path: FilePath)
        ensures
            path@ == bytes_of(text@),
    {
        let bytes = text.as_bytes();
        let copy = bytes_between(bytes, 0, bytes.len());
        proof {
            assert(bytes@.subrange(0, bytes@.len() as int) =~= bytes@);
        }
        FilePath { bytes: copy }
    }

    /// A copy of the path.
    pub fn copy(&self) -> (path: FilePath)
        ensures
            path@ == self@,
    {
        let copy = bytes_between(&self.bytes, 0, self.bytes.len());
        proof {
            assert(self@.subrange(0, self@.len() as int) =~= self@);
        }
        FilePath { bytes: copy }
    }

    /// The path as it is shown to humans.
    pub fn display(&self) -> (text: String)
        ensures
            text@ == lossy_text(self@),
            valid_utf8(self@) ==> text@ == decode_utf8(self@),
            forall|tail: Seq<char>| #[trigger]
                has_ascii_tail(self@, tail) ==> ends_with(text@, tail),
    {
        text_from_bytes(&self.bytes)
    }

    /// The path with a name below it.
    pub fn join(&self, name: &str) -> (path: FilePath)
        ensures
            path@ == joined_path(self@, bytes_of(name@)),
    {
        self.join_name(name.as_bytes())
    }

    /// The path with a name below it that need not be a text.
    pub fn join_name(&self, name_bytes: &[u8]) -> (path: FilePath)
        ensures
            path@ == joined_path(self@, name_bytes@),
    {
        let mut bytes: Vec<u8> = Vec::new();
        if !(name_bytes.len() > 0 && name_bytes[0] == SEPARATOR) {
            append_bytes(&mut bytes, &self.bytes, 0, self.bytes.len());
            proof {
                assert(bytes@ =~= self@);
            }
            if bytes.len() > 0 && bytes[bytes.len() - 1] != SEPARATOR {
                bytes.push(SEPARATOR);
            }
        }
        append_bytes(&mut bytes, name_bytes, 0, name_bytes.len());
        proof {
            assert(bytes@ =~= joined_path(self@, name_bytes@));
        }
        FilePath { bytes }
    }

    /// The path without its last part.
    pub fn parent(&self) -> (path: Option<FilePath>)
        ensures
            match path {
                Some(parent) => parent_path(self@) == Some(parent@),
                None => parent_path(self@) is None,
            },
    {
        let length: usize = self.bytes.len();
        let end = stripped_length(&self.bytes, length);
        proof {
            assert(self@.take(length as int) =~= self@);
            if end == 1 && self@[0] == SEPARATOR {
                assert(stripped(self@) =~= seq![SEPARATOR]);
            }
            if only_root(stripped(self@)) && end > 0 {
                assert(stripped(self@)[0] == self@[0]);
            }
        }
        if end == 0 || (end == 1 && self.bytes[0] == SEPARATOR) {
            return None;
        }
        let start = name_position(&self.bytes, end);
        let above = stripped_length(&self.bytes, start);
        proof {
            assert(self@.take(end as int).take(start as int) =~= self@.take(start as int));
            assert(self@.subrange(0, above as int) =~= self@.take(above as int));
        }
        Some(FilePath { bytes: bytes_between(&self.bytes, 0, above) })
    }

    /// The last part of the path, if it is a name.
    pub fn file_name(&self) -> (name: Option<Vec<u8>>)
        ensures
            match name {
                Some(name) => path_name(self@) == Some(name@),
                None => path_name(self@) is None,
            },
    {
        let length: usize = self.bytes.len();
        let end = stripped_length(&self.bytes, length);
        let start = name_position(&self.bytes, end);
        let name = bytes_between(&self.bytes, start, end);
        proof {
            assert(self@.take(length as int) =~= self@);
            assert(name@ =~= stripped(self@).skip(start as int));
            if end == 1 && self@[0] == SEPARATOR {
                assert(stripped(self@) =~= seq![SEPARATOR]);
            }
            if only_root(stripped(self@)) && end > 0 {
                assert(stripped(self@)[0] == self@[0]);
            }
            if name@.len() == 1 && name@[0] == DOT {
                assert(name@ =~= seq![DOT]);
            }
            if name@.len() == 2 && name@[0] == DOT && name@[1] == DOT {
                assert(name@ =~= seq![DOT, DOT]);
            }
        }
        if end == 0 || (end == 1 && self.bytes[0] == SEPARATOR) {
            None
        } else if (name.len() == 1 && name[0] == DOT) || (name.len() == 2 && name[0] == DOT
            && name[1] == DOT) {
            None
        } else {
            Some(name)
        }
    }

    /// The last part of the path, if it is a name, read as a path of Windows.
    pub fn windows_file_name(&self) -> (name: Option<Vec<u8>>)
        ensures
            match name {
                Some(name) => windows_path_name(self@) == Some(name@),
                None => windows_path_name(self@) is None,
            },
    {
        let bytes = slashed_bytes(&self.bytes);
        let count: usize = bytes.len();
        let mut start: usize = 0;
        if count > 1 && bytes[0] == SEPARATOR && bytes[1] == SEPARATOR {
            start = name_end(&bytes, 2);
            if start < count {
                proof {
                    assert(bytes@.skip(start as int).skip(1) =~= bytes@.skip(start + 1));
                }
                start = name_end(&bytes, start + 1);
            }
        } else if count > 1 && bytes[1] == COLON && ((65 <= bytes[0] && bytes[0] <= 90) || (97
            <= bytes[0] && bytes[0] <= 122)) {
            start = 2;
        }
        let rest = FilePath { bytes: bytes_between(&bytes, start, count) };
        proof {
            assert(rest@ =~= bytes@.skip(start as int));
            assert(bytes@.skip(0) =~= bytes@);
        }
        rest.file_name()
    }

    /// The extension of the path.
    pub fn extension(&self) -> (extension: Option<Vec<u8>>)
        ensures
            match extension {
                Some(extension) => path_extension(self@) == Some(extension@),
                None => path_extension(self@) is None,
            },
    {
        match self.file_name() {
            Some(name) => {
                let end = dot_position(&name);
                if end < name.len() {
                    let extension = bytes_between(&name, end + 1, name.len());
                    proof {
                        assert(extension@ =~= name@.skip(end + 1));
                    }
                    Some(extension)
                } else {
                    None
                }
            },
            None => None,
        }
    }

    /// The path with another extension, or without one.
    pub fn with_extension(&self, extension: &str) -> (path: FilePath)
        ensures
            path@ == path_with_extension(self@, bytes_of(extension@)),
    {
        match self.file_name() {
            Some(name) => {
                let length: usize = self.bytes.len();
                let end = stripped_length(&self.bytes, length);
                let start = name_position(&self.bytes, end);
                let stem = dot_position(&name);
                let mut bytes = bytes_between(&self.bytes, 0, start);
                append_bytes(&mut bytes, &name, 0, stem);
                let extension_bytes = extension.as_bytes();
                if extension_bytes.len() > 0 {
                    bytes.push(DOT);
                    append_bytes(&mut bytes, extension_bytes, 0, extension_bytes.len());
                }
                proof {
                    assert(self@.take(length as int) =~= self@);
                    assert(bytes@ =~= path_with_extension(self@, bytes_of(extension@)));
                }
                FilePath { bytes }
            },
            None => self.copy(),
        }
    }

    /// The parts of the path.
    pub fn components(&self) -> (components: Vec<Component>)
        ensures
            component_views(components@) == path_parts(self@),
    {
        let ghost part = |segment: Seq<u8>| segment_part(segment);
        let mut components: Vec<Component> = Vec::new();
        let count: usize = self.bytes.len();
        if count > 0 && self.bytes[0] == SEPARATOR {
            components.push(Component::RootDir);
        } else if count > 0 && self.bytes[0] == DOT && (count == 1 || self.bytes[1] == SEPARATOR) {
            components.push(Component::CurDir);
        }
        let mut segment: Vec<u8> = Vec::new();
        let mut i: usize = 0;
        proof {
            assert(component_views(components@) =~= leading_part(self@));
            assert(self@.take(0) =~= Seq::<u8>::empty());
            assert(segments(self@.take(0)).drop_last() =~= Seq::<Seq<u8>>::empty());
            assert(segment@ =~= segments(self@.take(0)).last());
            assert(component_views(components@) =~= leading_part(self@) + segments(
                self@.take(0),
            ).drop_last().filter_map(part));
        }
        while i < count
            invariant
                i <= count,
                count == self@.len(),
                part == (|segment: Seq<u8>| segment_part(segment)),
                segments(self@.take(i as int)).len() > 0,
                segment@ == segments(self@.take(i as int)).last(),
                component_views(components@) == leading_part(self@) + segments(
                    self@.take(i as int),
                ).drop_last().filter_map(part),
            decreases count - i,
        {
            let byte = self.bytes[i];
            let ghost before = segments(self@.take(i as int));
            proof {
                assert(self@.take(i + 1).drop_last() =~= self@.take(i as int));
                assert(self@.take(i + 1).last() == byte);
                if byte == SEPARATOR {
                    assert(segments(self@.take(i + 1)).drop_last() =~= before);
                } else {
                    assert(segments(self@.take(i + 1)).drop_last() =~= before.drop_last());
                }
            }
            if byte == SEPARATOR {
                push_segment(&mut components, segment);
                segment = Vec::new();
                proof {
                    assert(component_views(components@) =~= leading_part(self@)
                        + before.filter_map(part));
                    assert(segment@ =~= segments(self@.take(i + 1)).last());
                }
            } else {
                segment.push(byte);
            }
            i = i + 1;
        }
        let ghost last = segment@;
        push_segment(&mut components, segment);
        proof {
            assert(self@.take(count as int) =~= self@);
            assert(component_views(components@) =~= path_parts(self@));
        }
        components
    }
}

fn push_segment(components: &mut Vec<Component>, segment: Vec<u8>)
    ensures
        component_views(final(components)@) == component_views(old(components)@) + (
        match segment_part(segment@) {
            Some(part) => seq![part],
            None => Seq::empty(),
        }),
{
    proof {
        if segment@.len() == 1 && segment@[0] == DOT {
            assert(segment@ =~= seq![DOT]);
        }
        if segment@.len() == 2 && segment@[0] == DOT && segment@[1] == DOT {
            assert(segment@ =~= seq![DOT, DOT]);
        }
    }
    let ghost part = segment_part(segment@);
    if segment.len() == 0 || (segment.len() == 1 && segment[0] == DOT) {
    } else if segment.len() == 2 && segment[0] == DOT && segment[1] == DOT {
        components.push(Component::ParentDir);
    } else {
        components.push(Component::Normal(segment));
    }
    proof {
        assert(component_views(components@) =~= component_views(old(components)@) + (match part {
            Some(part) => seq![part],
            None => Seq::empty(),
        }));
    }
}

/// Whether two parts are the same.
pub fn same_component(left: &Component, right: &Component) -> (same: bool)
    ensures
        same == (left@ == right@),
{
    match (left, right) {
        (Component::RootDir, Component::RootDir) => true,
        (Component::CurDir, Component::CurDir) => true,
        (Component::ParentDir, Component::ParentDir) => true,
        (Component::Normal(a), Component::Normal(b)) => same_bytes(a, b),
        _ => false,
    }
}

/// A name that is one part of its own: not empty, without a separator, and
/// neither `.` nor `..`.
pub open spec fn is_plain_name(name: Seq<u8>) -> bool {
    &&& name.len() > 0
    &&& forall|i: int| 0 <= i < name.len() ==> name[i] != SEPARATOR
    &&& name != seq![DOT]
    &&& name != seq![DOT, DOT]
}

proof fn lemma_segments_of_name(path: Seq<u8>, name: Seq<u8>)
    requires
        forall|i: int| 0 <= i < name.len() ==> name[i] != SEPARATOR,
    ensures
        segments(path).len() > 0,
        segments(path + name) == segments(path).drop_last().push(segments(path).last() + name),
    decreases path.len() + name.len(),
{
    if name.len() > 0 {
        lemma_segments_of_name(path, name.drop_last());
        assert((path + name).drop_last() =~= path + name.drop_last());
        assert((path + name).last() == name.last());
        let before = segments(path + name.drop_last());
        assert(before.drop_last() =~= segments(path).drop_last());
        assert(before.last().push(name.last()) =~= segments(path).last() + name);
    } else {
        assert(path + name =~= path);
        if path.len() > 0 {
            lemma_segments_of_name(path.drop_last(), name);
        }
        assert(segments(path).last() + name =~= segments(path).last());
        assert(segments(path).drop_last().push(segments(path).last()) =~= segments(path));
    }
}

/// Taking the name and the parent of a path undoes joining a plain name: they
/// are the name and the path that it was joined to, without what does not
/// count at its end.
pub proof fn law_name_and_parent_undo_join(dir: Seq<u8>, name: Seq<u8>)
    requires
        is_plain_name(name),
    ensures
        path_name(joined_path(dir, name)) == Some(name),
        parent_path(joined_path(dir, name)) == Some(stripped(dir)),
{
    let path = joined_path(dir, name);
    lemma_name_of_joined(dir, name);
    assert(name[0] != SEPARATOR);
    assert(path.last() == name.last());
    assert(path[path.len() - 1] != SEPARATOR);
    let above = path.take(path.len() - name.len());
    if dir.len() == 0 || dir.last() == SEPARATOR {
        assert(above =~= dir);
    } else {
        assert(above =~= dir.push(SEPARATOR));
        assert(above.drop_last() =~= dir);
    }
}

/// What is written of a path ends with a name of ASCII characters that was
/// joined to it.
pub proof fn law_joined_path_ends_with_name(dir: Seq<u8>, name: Seq<char>)
    requires
        is_ascii_chars(name),
        name.len() > 0,
        name[0] != '/',
    ensures
        has_ascii_tail(joined_path(dir, bytes_of(name)), name),
{
    let path = joined_path(dir, bytes_of(name));
    is_ascii_chars_encode_utf8(name);
    is_ascii_chars_nat_bound(name);
    assert(name[0] as u8 == bytes_of(name)[0]);
    assert(bytes_of(name)[0] != SEPARATOR);
    assert(path.skip(path.len() - name.len()) =~= bytes_of(name));
}

/// Joining a plain name adds exactly one part to a path, at its end.
pub proof fn law_join_adds_one_part(path: Seq<u8>, name: Seq<u8>)
    requires
        is_plain_name(name),
    ensures
        path_parts(joined_path(path, name)) == path_parts(path).push(PathPart::Normal(name)),
{
    let part = |segment: Seq<u8>| segment_part(segment);
    let whole = joined_path(path, name);
    assert(name[0] != SEPARATOR);
    lemma_segments_of_name(path, Seq::empty());
    let prefix = if path.len() == 0 || path.last() == SEPARATOR {
        path
    } else {
        path.push(SEPARATOR)
    };
    assert(path.push(SEPARATOR).drop_last() =~= path);
    assert(whole =~= prefix + name);
    lemma_segments_of_name(prefix, name);
    assert(segments(prefix).last() =~= Seq::<u8>::empty());
    assert(segments(prefix).last() + name =~= name);
    let above = segments(prefix).drop_last();
    assert(segments(whole).drop_last() =~= above);
    assert(segments(whole).filter_map(part) == above.filter_map(part) + seq![PathPart::Normal(name)]);
    if prefix == path {
        assert(segments(path).filter_map(part) == above.filter_map(part));
    } else {
        assert(above =~= segments(path));
    }
    if path.len() > 0 {
        assert(whole[0] == path[0]);
        if path.len() > 1 {
            assert(whole[1] == path[1]);
        } else if path[0] == DOT {
            assert(whole[1] == SEPARATOR);
        }
    } else {
        assert(whole[0] == name[0]);
        if name.len() == 1 && name[0] == DOT {
            assert(name =~= seq![DOT]);
        }
        if name.len() > 1 {
            assert(whole[1] == name[1]);
        }
    }
    assert(leading_part(whole) =~= leading_part(path));
    assert(path_parts(whole) =~= path_parts(path).push(PathPart::Normal(name)));
}

proof fn lemma_last_dot(name: Seq<u8>, at: int, count: nat)
    requires
        0 < at < name.len(),
        name[at] == DOT,
        forall|i: int| at < i < name.len() ==> name[i] != DOT,
        at < count <= name.len(),
    ensures
        stem_end_within(name, count) == at,
    decreases count,
{
    if count - 1 > at {
        lemma_last_dot(name, at, (count - 1) as nat);
    }
}

proof fn lemma_no_dot(name: Seq<u8>, count: nat)
    requires
        forall|i: int| 0 < i < name.len() ==> name[i] != DOT,
        count <= name.len(),
    ensures
        stem_end_within(name, count) == name.len(),
    decreases count,
{
    if count > 1 {
        lemma_no_dot(name, (count - 1) as nat);
    }
}

/// The extension of a name is what stands behind its last dot, wherever the name
/// is; a name without a dot, but perhaps in front, has none.
pub proof fn law_the_extension_is_behind_the_last_dot(
    dir: Seq<u8>,
    stem: Seq<u8>,
    extension: Seq<u8>,
    bare: Seq<u8>,
)
    requires
        stem.len() > 0,
        is_plain_name(stem.push(DOT) + extension),
        forall|i: int| 0 <= i < extension.len() ==> extension[i] != DOT,
        is_plain_name(bare),
        forall|i: int| 0 < i < bare.len() ==> bare[i] != DOT,
    ensures
        path_extension(joined_path(dir, stem.push(DOT) + extension)) == Some(extension),
        path_extension(joined_path(dir, bare)) is None,
{
    let name = stem.push(DOT) + extension;
    let at = stem.len() as int;
    lemma_name_of_joined(dir, name);
    lemma_name_of_joined(dir, bare);
    assert(name[at] == DOT);
    assert forall|i: int| at < i < name.len() implies name[i] != DOT by {
        assert(name[i] == extension[i - at - 1]);
    }
    lemma_last_dot(name, at, name.len());
    assert(name.skip(at + 1) =~= extension);
    lemma_no_dot(bare, bare.len());
}

proof fn lemma_extension_behind_stem(dir: Seq<u8>, name: Seq<u8>, other: Seq<u8>)
    requires
        is_plain_name(name),
        other.len() > 0,
    ensures
        path_with_extension(joined_path(dir, name), other) == joined_path(
            dir,
            name.take(stem_end(name) as int).push(DOT) + other,
        ),
{
    let path = joined_path(dir, name);
    lemma_name_of_joined(dir, name);
    let stem = name.take(stem_end(name) as int).push(DOT);
    let start = (path.len() - name.len()) as int;
    lemma_stem_end(name, name.len());
    assert(stem[0] == name[0]);
    assert((stem + other)[0] == stem[0]);
    assert(path.take(start) + stem + other =~= joined_path(dir, stem + other));
}

/// Another extension takes the place of the one that a name has, or is put behind
/// a name that has none; the rest of the path stays.
pub proof fn law_another_extension_replaces_the_last(
    dir: Seq<u8>,
    stem: Seq<u8>,
    extension: Seq<u8>,
    bare: Seq<u8>,
    other: Seq<u8>,
)
    requires
        stem.len() > 0,
        is_plain_name(stem.push(DOT) + extension),
        forall|i: int| 0 <= i < extension.len() ==> extension[i] != DOT,
        is_plain_name(bare),
        forall|i: int| 0 < i < bare.len() ==> bare[i] != DOT,
        other.len() > 0,
    ensures
        path_with_extension(joined_path(dir, stem.push(DOT) + extension), other) == joined_path(
            dir,
            stem.push(DOT) + other,
        ),
        path_with_extension(joined_path(dir, bare), other) == joined_path(
            dir,
            bare.push(DOT) + other,
        ),
{
    let name = stem.push(DOT) + extension;
    let at = stem.len() as int;
    assert(name[at] == DOT);
    assert forall|i: int| at < i < name.len() implies name[i] != DOT by {
        assert(name[i] == extension[i - at - 1]);
    }
    lemma_last_dot(name, at, name.len());
    lemma_no_dot(bare, bare.len());
    lemma_extension_behind_stem(dir, name, other);
    lemma_extension_behind_stem(dir, bare, other);
    assert(name.take(at) =~= stem);
    assert(bare.take(bare.len() as int) =~= bare);
}

/// A path without anything in it has no parts, the root is one, `..` leads up,
/// and a name that starts at the root starts the path anew.
pub proof fn law_what_the_parts_of_a_path_are(path: Seq<u8>, name: Seq<u8>)
    ensures
        path_parts(Seq::empty()).len() == 0,
        path_parts(seq![SEPARATOR]) == seq![PathPart::Root],
        path_parts(seq![DOT, DOT]) == seq![PathPart::Parent],
        path_parts(seq![DOT]) == seq![PathPart::Current],
        name.len() > 0 && name[0] == SEPARATOR ==> joined_path(path, name) == name,
        path.len() > 0 ==> path_parts(path.push(SEPARATOR)) == path_parts(path),
        path.len() > 0 ==> path_parts(joined_path(path, seq![DOT, DOT])) == path_parts(path).push(
            PathPart::Parent,
        ),
        path.len() > 0 ==> path_parts(joined_path(path, seq![DOT])) == path_parts(path),
        SEPARATOR == '/' as u8 && DOT == '.' as u8,
{
    let part = |segment: Seq<u8>| segment_part(segment);
    lemma_short_paths();
    if path.len() > 0 {
        lemma_segments_of_name(path, Seq::empty());
        let above = path.push(SEPARATOR);
        assert(above.drop_last() =~= path);
        assert(segments(above).drop_last() =~= segments(path));
        assert(segments(above).last() =~= Seq::<u8>::empty());
        assert(segments(above).filter_map(part) == segments(path).filter_map(part));
        assert(above[0] == path[0]);
        if path.len() > 1 {
            assert(above[1] == path[1]);
        }
        assert(leading_part(above) =~= leading_part(path));
        lemma_parts_below(path, seq![DOT, DOT]);
        lemma_parts_below(path, seq![DOT]);
        assert(seq![DOT, DOT] != seq![DOT]) by {
            assert(seq![DOT, DOT].len() == 2);
        }
        assert(path_parts(joined_path(path, seq![DOT, DOT])) =~= path_parts(path).push(
            PathPart::Parent,
        ));
        assert(path_parts(joined_path(path, seq![DOT])) =~= path_parts(path));
    }
}

proof fn lemma_short_paths()
    ensures
        path_parts(Seq::empty()).len() == 0,
        path_parts(seq![SEPARATOR]) == seq![PathPart::Root],
        path_parts(seq![DOT, DOT]) == seq![PathPart::Parent],
        path_parts(seq![DOT]) == seq![PathPart::Current],
{
    let part = |segment: Seq<u8>| segment_part(segment);
    let nothing = Seq::<u8>::empty();
    reveal_with_fuel(segments, 4);
    assert(segments(nothing) =~= seq![nothing]);
    assert(seq![nothing].drop_last() =~= Seq::<Seq<u8>>::empty());
    assert(Seq::<Seq<u8>>::empty().filter_map(part) =~= Seq::<PathPart>::empty());
    assert(seq![nothing].filter_map(part) =~= Seq::<PathPart>::empty());
    assert(seq![SEPARATOR].drop_last() =~= nothing);
    assert(segments(seq![SEPARATOR]) =~= seq![nothing, nothing]);
    assert(seq![nothing, nothing].drop_last() =~= seq![nothing]);
    assert(seq![nothing, nothing].filter_map(part) =~= Seq::<PathPart>::empty());
    assert(path_parts(seq![SEPARATOR]) =~= seq![PathPart::Root]);
    assert(seq![DOT].drop_last() =~= nothing);
    assert(seq![DOT, DOT].drop_last() =~= seq![DOT]);
    assert(nothing.push(DOT) =~= seq![DOT]);
    assert(seq![DOT].push(DOT) =~= seq![DOT, DOT]);
    assert(segments(seq![DOT]) =~= seq![seq![DOT]]);
    assert(segments(seq![DOT, DOT]) =~= seq![seq![DOT, DOT]]);
    assert(seq![seq![DOT]].drop_last() =~= Seq::<Seq<u8>>::empty());
    assert(seq![seq![DOT, DOT]].drop_last() =~= Seq::<Seq<u8>>::empty());
    assert(seq![seq![DOT]].filter_map(part) =~= Seq::<PathPart>::empty());
    assert(seq![DOT, DOT] != seq![DOT]) by {
        assert(seq![DOT, DOT].len() == 2);
    }
    assert(seq![seq![DOT, DOT]].filter_map(part) =~= seq![PathPart::Parent]);
    assert(path_parts(seq![DOT]) =~= seq![PathPart::Current]);
    assert(path_parts(seq![DOT, DOT]) =~= seq![PathPart::Parent]);
}

proof fn lemma_parts_below(path: Seq<u8>, name: Seq<u8>)
    requires
        path.len() > 0,
        name.len() > 0,
        forall|i: int| 0 <= i < name.len() ==> name[i] != SEPARATOR,
    ensures
        path_parts(joined_path(path, name)) == path_parts(path) + (match segment_part(name) {
            Some(part) => seq![part],
            None => Seq::empty(),
        }),
{
    let part = |segment: Seq<u8>| segment_part(segment);
    let whole = joined_path(path, name);
    assert(name[0] != SEPARATOR);
    lemma_segments_of_name(path, Seq::empty());
    let prefix = if path.last() == SEPARATOR {
        path
    } else {
        path.push(SEPARATOR)
    };
    assert(path.push(SEPARATOR).drop_last() =~= path);
    assert(whole =~= prefix + name);
    lemma_segments_of_name(prefix, name);
    assert(segments(prefix).last() =~= Seq::<u8>::empty());
    assert(segments(prefix).last() + name =~= name);
    let above = segments(prefix).drop_last();
    assert(segments(whole).drop_last() =~= above);
    assert(segments(whole).filter_map(part) =~= above.filter_map(part) + (match segment_part(
        name,
    ) {
        Some(part) => seq![part],
        None => Seq::empty(),
    }));
    if prefix == path {
        assert(segments(path).filter_map(part) == above.filter_map(part));
    } else {
        assert(above =~= segments(path));
    }
    assert(whole[0] == path[0]);
    if path.len() > 1 {
        assert(whole[1] == path[1]);
    } else if path[0] == DOT {
        assert(whole[1] == SEPARATOR);
    }
    assert(leading_part(whole) =~= leading_part(path));
    assert(path_parts(whole) =~= path_parts(path) + (match segment_part(name) {
        Some(part) => seq![part],
        None => Seq::empty(),
    }));
}

/// The ancestors of a path begin with the path itself, each is the parent of the
/// one before it, and the last has no parent.
pub proof fn law_ancestors_lead_up(path: Seq<u8>)
    ensures
        ancestors(path).len() > 0,
        ancestors(path)[0] == path,
        parent_path(ancestors(path).last()) is None,
        forall|i: int|
            0 <= i < ancestors(path).len() - 1 ==> parent_path(#[trigger] ancestors(path)[i])
                == Some(ancestors(path)[i + 1]),
    decreases path.len(),
{
    if let Some(parent) = parent_path(path) {
        lemma_parent_shorter(path);
        law_ancestors_lead_up(parent);
        let above = ancestors(parent);
        let all = ancestors(path);
        assert(all =~= seq![path] + above);
        assert forall|i: int| 0 <= i < all.len() - 1 implies parent_path(#[trigger] all[i])
            == Some(all[i + 1]) by {
            if i == 0 {
                assert(all[1] == above[0]);
            } else {
                assert(all[i] == above[i - 1]);
                assert(all[i + 1] == above[i]);
            }
        }
        assert(all.last() == above.last());
    }
}

/// The last part of a path of Windows is its name, whether the separator before
/// it is written as `\` or as `/`, as long as the path does not start with a
/// network share; and a drive alone has none.
pub proof fn law_windows_names_stand_behind_either_separator(
    before: Seq<u8>,
    separator: u8,
    name: Seq<u8>,
    letter: u8,
)
    requires
        separator == 92 || separator == 47,
        is_plain_name(name),
        forall|i: int| 0 <= i < name.len() ==> name[i] != 92 && name[i] != 58,
        before.len() > 0 ==> before[0] != 92 && before[0] != 47,
        (65 <= letter <= 90) || (97 <= letter <= 122),
    ensures
        windows_path_name(before.push(separator) + name) == Some(name),
        windows_path_name(seq![letter, 58u8, separator]) is None,
{
    let path = before.push(separator) + name;
    let whole = slashed(path);
    assert(slashed(before).push(SEPARATOR) + name =~= whole);
    let rest = without_drive(whole);
    let above = slashed(before).push(SEPARATOR);
    if whole.len() > 1 && whole[0] == SEPARATOR && whole[1] == SEPARATOR {
        assert(before.len() == 0);
        assert(whole[1] == name[0]);
    }
    if whole.len() > 1 && whole[1] == COLON && is_drive_letter(whole[0]) {
        assert(before.len() >= 2) by {
            if before.len() == 0 {
                assert(whole[1] == name[0]);
            } else if before.len() == 1 {
                assert(whole[1] == SEPARATOR);
            }
        }
        assert(rest =~= above.skip(2) + name);
        assert(above.skip(2).last() == SEPARATOR);
        assert(rest =~= joined_path(above.skip(2), name));
        lemma_name_of_joined(above.skip(2), name);
    } else {
        assert(rest =~= joined_path(above, name));
        lemma_name_of_joined(above, name);
    }
    let drive = seq![letter, 58u8, separator];
    assert(slashed(drive) =~= seq![letter, 58u8, SEPARATOR]);
    assert(without_drive(slashed(drive)) =~= seq![SEPARATOR]);
    reveal_with_fuel(stripped, 2);
}

proof fn lemma_behind_name(name: Seq<u8>, rest: Seq<u8>)
    requires
        forall|i: int| 0 <= i < name.len() ==> name[i] != SEPARATOR,
        rest.len() > 0 ==> rest[0] == SEPARATOR,
    ensures
        behind_name(name + rest) == rest,
    decreases name.len(),
{
    let whole = name + rest;
    if name.len() == 0 {
        assert(whole =~= rest);
    } else {
        assert(whole[0] == name[0]);
        assert(whole.drop_first() =~= name.drop_first() + rest);
        lemma_behind_name(name.drop_first(), rest);
    }
}

/// A network share, which is a server and a name behind it, is no name of a path,
/// and what stands below a share is.
pub proof fn law_a_network_share_is_no_name(
    server: Seq<u8>,
    share: Seq<u8>,
    name: Seq<u8>,
)
    requires
        forall|i: int| 0 <= i < server.len() ==> server[i] != 47 && server[i] != 92,
        forall|i: int| 0 <= i < share.len() ==> share[i] != 47 && share[i] != 92,
        is_plain_name(name),
        forall|i: int| 0 <= i < name.len() ==> name[i] != 92,
    ensures
        windows_path_name(seq![92u8, 92u8] + server + seq![92u8] + share) is None,
        windows_path_name(
            seq![92u8, 92u8] + server + seq![92u8] + share + seq![92u8] + name,
        ) == Some(name),
{
    let root = seq![92u8, 92u8] + server + seq![92u8] + share;
    let lead = seq![SEPARATOR, SEPARATOR];
    let alone = slashed(root);
    assert(alone =~= lead + server + seq![SEPARATOR] + share);
    assert(alone.skip(2) =~= server + (seq![SEPARATOR] + share));
    lemma_behind_name(server, seq![SEPARATOR] + share);
    assert((seq![SEPARATOR] + share).skip(1) =~= share + Seq::<u8>::empty());
    lemma_behind_name(share, Seq::empty());
    assert(without_drive(alone) =~= Seq::<u8>::empty());
    let below = root + seq![92u8] + name;
    let whole = slashed(below);
    let rest = seq![SEPARATOR] + name;
    assert(whole =~= lead + server + seq![SEPARATOR] + share + rest);
    assert(whole.skip(2) =~= server + (seq![SEPARATOR] + share + rest));
    lemma_behind_name(server, seq![SEPARATOR] + share + rest);
    assert((seq![SEPARATOR] + share + rest).skip(1) =~= share + rest);
    lemma_behind_name(share, rest);
    assert(without_drive(whole) == rest);
    assert(rest =~= joined_path(seq![SEPARATOR], name));
    lemma_name_of_joined(seq![SEPARATOR], name);
}

/// A path is modelled by its bytes, and its parts by what they are.
pub proof fn law_paths_are_modelled_by_their_bytes(path: FilePath, name: Vec<u8>)
    ensures
        path@ == path.bytes@,
        Component::RootDir@ is Root,
        Component::CurDir@ is Current,
        Component::ParentDir@ is Parent,
        Component::Normal(name)@ == PathPart::Normal(name@),
{
}

/// Separators and `.` segments at the end of a path do not count: neither its name
/// nor its parent depends on them.
pub proof fn law_what_a_path_ends_with_does_not_count(path: Seq<u8>)
    requires
        path.len() > 0,
    ensures
        path_name(path.push(SEPARATOR)) == path_name(path),
        parent_path(path.push(SEPARATOR)) == parent_path(path),
        path_name(path.push(SEPARATOR).push(DOT)) == path_name(path),
        parent_path(path.push(SEPARATOR).push(DOT)) == parent_path(path),
        path_name(seq![SEPARATOR]) is None && parent_path(seq![SEPARATOR]) is None,
        path_name(Seq::empty()) is None && parent_path(Seq::empty()) is None,
        path_name(seq![DOT, DOT]) is None,
        path_name(joined_path(path, seq![DOT, DOT])) is None,
{
    let slash = path.push(SEPARATOR);
    assert(slash.drop_last() =~= path);
    assert(slash.push(DOT).drop_last() =~= slash);
    reveal_with_fuel(stripped, 3);
    assert(stripped(slash) == stripped(path));
    let up = joined_path(path, seq![DOT, DOT]);
    let start = up.len() - 2;
    assert(up[start - 1] == SEPARATOR && up[start] == DOT && up[start + 1] == DOT);
    assert(stripped(up) == up);
    reveal_with_fuel(name_start, 4);
    assert(up.drop_last().drop_last().last() == SEPARATOR);
    assert(name_start(up) == start);
    assert(up.skip(start) =~= seq![DOT, DOT]);
    assert(seq![DOT, DOT].drop_last().drop_last() =~= Seq::<u8>::empty());
    assert(name_start(seq![DOT, DOT]) == 0);
    assert(seq![DOT, DOT].skip(0) =~= seq![DOT, DOT]);
}

/// A name is joined to a path with exactly one separator between them, and taking
/// it off again gives the path back, unless that ended with something that does not
/// count.
pub proof fn law_joining_writes_one_separator(path: Seq<u8>, name: Seq<u8>)
    requires
        is_plain_name(name),
    ensures
        path.len() == 0 ==> joined_path(path, name) == name,
        path.len() > 0 && path.last() == 47 ==> joined_path(path, name) == path + name,
        path.len() > 0 && path.last() != 47 ==> joined_path(path, name) == path + seq![47u8] + name,
        path.len() > 0 && path.last() != 47 && path.last() != 46 ==> parent_path(
            joined_path(path, name),
        ) == Some(path),
{
    law_name_and_parent_undo_join(path, name);
    assert(name[0] != SEPARATOR);
    if path.len() > 0 {
        assert(path.push(SEPARATOR) =~= path + seq![47u8]);
    }
}

/// A letter and a colon in front of a path of Windows are a drive, and no part of
/// the name behind them; with anything but a letter they are.
pub proof fn law_a_drive_is_a_letter_and_a_colon(byte: u8, name: Seq<u8>)
    requires
        is_plain_name(name),
        forall|i: int| 0 <= i < name.len() ==> name[i] != 92,
        byte != 47 && byte != 92,
    ensures
        ({
            let path = seq![byte, 58u8] + name;
            let is_letter = (65 <= byte <= 90) || (97 <= byte <= 122);
            windows_path_name(path) == if is_letter {
                Some(name)
            } else {
                Some(path)
            }
        }),
{
    let path = seq![byte, 58u8] + name;
    assert(slashed(path) =~= path);
    assert(path.skip(2) =~= name);
    assert(joined_path(Seq::empty(), name) =~= name) by {
        assert(name[0] != SEPARATOR);
    }
    lemma_name_of_joined(Seq::empty(), name);
    assert(path.len() > 2);
    assert forall|i: int| 0 <= i < path.len() implies path[i] != SEPARATOR by {
        if i >= 2 {
            assert(path[i] == name[i - 2]);
        }
    }
    assert(is_plain_name(path));
    assert(joined_path(Seq::empty(), path) =~= path);
    lemma_name_of_joined(Seq::empty(), path);
}

} // verus!
