//! Unix paths as byte strings.
//!
//! A path is the bytes a Unix system call would be given. Two paths are the
//! same path when they have the same components: repeated slashes, a trailing
//! slash and `.` anywhere but at the front make no difference. Paths of other
//! systems, with drives or backslashes, are not modelled.

use vstd::prelude::*;

verus! {

/// The byte that separates the components of a path.
pub const SLASH: u8 = 47;

/// The byte of `.`, which on its own names the current directory.
pub const DOT: u8 = 46;

/// Whether the piece at position `index` between slashes is a component.
///
/// Empty pieces come from repeated slashes. A lone `.` only counts where the
/// path starts with it.
pub open spec fn is_component(index: int, piece: Seq<u8>) -> bool {
    piece.len() > 0 && (piece == seq![DOT] ==> index == 0)
}

/// The pieces that are components, in order.
pub open spec fn named_pieces(pieces: Seq<Seq<u8>>) -> Seq<Seq<u8>>
    decreases pieces.len(),
{
    if pieces.len() == 0 {
        Seq::empty()
    } else {
        let before = named_pieces(pieces.drop_last());
        if is_component(pieces.len() - 1, pieces.last()) {
            before.push(pieces.last())
        } else {
            before
        }
    }
}

/// Whether a path starts at the root directory.
pub open spec fn has_root(path: Seq<u8>) -> bool {
    path.len() > 0 && path[0] == SLASH
}

/// The components of a path. The root directory is the component `/`.
pub open spec fn components(path: Seq<u8>) -> Seq<Seq<u8>> {
    let named = named_pieces(crate::text::split_on(path, SLASH));
    if has_root(path) {
        seq![seq![SLASH]] + named
    } else {
        named
    }
}

/// Whether a component names an entry of a directory, rather than the root,
/// the directory itself or its parent.
pub open spec fn is_entry_name(component: Seq<u8>) -> bool {
    component != seq![SLASH] && component != seq![DOT] && component != seq![DOT, DOT]
}

/// Whether `end` is where the shortest prefix of `path` with the components
/// `wanted` ends.
pub open spec fn ends_at(path: Seq<u8>, wanted: Seq<Seq<u8>>, end: int) -> bool {
    &&& 0 <= end <= path.len()
    &&& components(path.take(end)) == wanted
    &&& forall|shorter: int| 0 <= shorter < end ==> components(#[trigger] path.take(shorter)) != wanted
}

/// The path without its last component: the shortest prefix of its text that
/// still has every other component.
pub open spec fn parent_of(path: Seq<u8>) -> Option<Seq<u8>> {
    if has_parent(path) {
        Some(path.take(choose|end: int| ends_at(path, components(path).drop_last(), end)))
    } else {
        None
    }
}

/// The name of the directory entry a path ends with.
pub open spec fn file_name_of(path: Seq<u8>) -> Option<Seq<u8>> {
    if components(path).len() > 0 && is_entry_name(components(path).last()) {
        Some(components(path).last())
    } else {
        None
    }
}

/// There is one shortest prefix with given components.
pub proof fn lemma_end_unique(path: Seq<u8>, wanted: Seq<Seq<u8>>, a: int, b: int)
    requires
        ends_at(path, wanted, a),
        ends_at(path, wanted, b),
    ensures
        a == b,
{
    if a < b {
        assert(components(path.take(a)) != wanted);
    } else if b < a {
        assert(components(path.take(b)) != wanted);
    }
}

/// Whether a path has a component that can be dropped. The root has no parent
/// and neither has the empty path.
pub open spec fn has_parent(path: Seq<u8>) -> bool {
    components(path).len() > 0 && components(path).last() != seq![SLASH]
}

/// The text of `path` extended by `tail`: an absolute `tail` replaces it, any
/// other one follows after a single slash.
pub open spec fn joined(path: Seq<u8>, tail: Seq<u8>) -> Seq<u8> {
    if has_root(tail) {
        tail
    } else if path.len() > 0 && path.last() != SLASH {
        path.push(SLASH) + tail
    } else {
        path + tail
    }
}

/// The number of bytes in all components together.
spec fn weight(parts: Seq<Seq<u8>>) -> nat
    decreases parts.len(),
{
    if parts.len() == 0 {
        0
    } else {
        weight(parts.drop_last()) + parts.last().len()
    }
}

proof fn lemma_weight_push(parts: Seq<Seq<u8>>, part: Seq<u8>)
    ensures
        weight(parts.push(part)) == weight(parts) + part.len(),
{
    assert(parts.push(part).drop_last() =~= parts);
}

/// The pieces of a prefix: those before its last slash, and what follows it.
spec fn closed_pieces(path: Seq<u8>) -> Seq<Seq<u8>> {
    crate::text::split_on(path, SLASH).drop_last()
}

spec fn open_piece(path: Seq<u8>) -> Seq<u8> {
    crate::text::split_on(path, SLASH).last()
}

spec fn root_part(path: Seq<u8>) -> Seq<Seq<u8>> {
    if has_root(path) {
        seq![seq![SLASH]]
    } else {
        Seq::empty()
    }
}

/// How the components of a path change when one more byte follows.
proof fn lemma_components_step(path: Seq<u8>, byte: u8)
    ensures
        closed_pieces(path).len() > 0 ==> path.len() > 0,
        byte == SLASH ==> closed_pieces(path.push(byte)) == closed_pieces(path).push(open_piece(path)),
        byte == SLASH ==> open_piece(path.push(byte)) == Seq::<u8>::empty(),
        byte != SLASH ==> closed_pieces(path.push(byte)) == closed_pieces(path),
        byte != SLASH ==> open_piece(path.push(byte)) == open_piece(path).push(byte),
        components(path) == root_part(path) + named_pieces(closed_pieces(path))
            + (if is_component(closed_pieces(path).len() as int, open_piece(path)) {
            seq![open_piece(path)]
        } else {
            Seq::empty()
        }),
{
    let pieces = crate::text::split_on(path, SLASH);
    crate::text::lemma_split_nonempty(path, SLASH);
    let longer = path.push(byte);
    assert(longer.drop_last() =~= path);
    if byte == SLASH {
        assert(crate::text::split_on(longer, SLASH) == pieces.push(Seq::empty()));
        assert(pieces.push(Seq::<u8>::empty()).drop_last() =~= pieces);
        assert(pieces =~= pieces.drop_last().push(pieces.last()));
    } else {
        let grown = pieces.update(pieces.len() - 1, pieces.last().push(byte));
        assert(crate::text::split_on(longer, SLASH) == grown);
        assert(grown.drop_last() =~= pieces.drop_last());
    }
    let named = named_pieces(closed_pieces(path));
    assert(named_pieces(pieces) =~= named + (if is_component(
        pieces.len() - 1,
        pieces.last(),
    ) {
        seq![pieces.last()]
    } else {
        Seq::empty()
    }));
    assert(components(path) =~= root_part(path) + named_pieces(pieces));
}

/// What is left of a path's last component while it is read byte by byte.
proof fn lemma_root_stays(path: Seq<u8>, byte: u8)
    requires
        path.len() > 0,
    ensures
        root_part(path.push(byte)) == root_part(path),
{
    assert(path.push(byte)[0] == path[0]);
}

/// The components of a path never shrink as it gets longer, and where they
/// change they gain bytes.
proof fn lemma_step_weight(path: Seq<u8>, byte: u8)
    ensures
        ({
            let before = components(path);
            let after = components(path.push(byte));
            let counted = is_component(closed_pieces(path).len() as int, open_piece(path));
            let counts = is_component(
                closed_pieces(path).len() as int,
                open_piece(path).push(byte),
            );
            &&& before == after || weight(before) < weight(after)
            &&& byte == SLASH && path.len() > 0 ==> before == after
            &&& byte == SLASH && path.len() == 0 ==> before == Seq::<Seq<u8>>::empty() && after == seq![
                seq![SLASH],
            ]
            &&& byte != SLASH && counted ==> counts && before.len() > 0 && after
                == before.drop_last().push(open_piece(path).push(byte))
            &&& byte != SLASH && !counted && counts ==> after == before.push(
                open_piece(path).push(byte),
            )
            &&& byte != SLASH && !counted && !counts ==> after == before
        }),
{
    let longer = path.push(byte);
    lemma_components_step(path, byte);
    lemma_components_step(longer, byte);
    let cur = open_piece(path);
    let at = closed_pieces(path).len() as int;
    let before = components(path);
    let after = components(longer);
    let base = root_part(path) + named_pieces(closed_pieces(path));
    assert(longer[0] == if path.len() > 0 {
        path[0]
    } else {
        byte
    });
    if path.len() == 0 {
        assert(crate::text::split_on(path, SLASH) == seq![Seq::<u8>::empty()]);
        assert(closed_pieces(path) =~= Seq::empty());
        assert(cur =~= Seq::empty());
        assert(before =~= Seq::empty());
        assert(base =~= Seq::empty());
    }
    if byte == SLASH {
        assert(closed_pieces(longer).drop_last() =~= closed_pieces(path));
        assert(closed_pieces(longer).last() == cur);
        if path.len() > 0 {
            assert(after =~= before);
        } else {
            assert(named_pieces(Seq::<Seq<u8>>::empty()) == Seq::<Seq<u8>>::empty());
            assert(after =~= seq![seq![SLASH]]);
            assert(weight(Seq::<Seq<u8>>::empty()) == 0);
            assert(after =~= Seq::<Seq<u8>>::empty().push(seq![SLASH]));
            lemma_weight_push(Seq::empty(), seq![SLASH]);
        }
    } else {
        assert(root_part(longer) == root_part(path));
        let grown = cur.push(byte);
        assert(grown.len() == cur.len() + 1);
        if is_component(at, cur) {
            assert(grown != seq![DOT]);
            assert(before =~= base.push(cur));
            assert(after =~= base.push(grown));
            assert(before.drop_last() =~= base);
            lemma_weight_push(base, cur);
            lemma_weight_push(base, grown);
        } else {
            assert(before =~= base);
            if is_component(at, grown) {
                assert(after =~= base.push(grown));
                lemma_weight_push(base, grown);
            } else {
                assert(after =~= base);
            }
        }
    }
}

/// A component has at least one byte, and only the root component is `/`.
proof fn lemma_component_shape(path: Seq<u8>, k: int)
    requires
        0 <= k < components(path).len(),
    ensures
        components(path)[k].len() > 0,
        components(path)[k] == seq![SLASH] ==> k == 0 && has_root(path),
    decreases path.len(),
{
    if path.len() == 0 {
        lemma_components_step(path, 0);
        assert(crate::text::split_on(path, SLASH) == seq![Seq::<u8>::empty()]);
        assert(closed_pieces(path) =~= Seq::empty());
        assert(components(path) =~= Seq::empty());
    } else {
        let shorter = path.drop_last();
        let byte = path.last();
        assert(path =~= shorter.push(byte));
        lemma_step_weight(shorter, byte);
        lemma_components_step(shorter, byte);
        if k < components(shorter).len() {
            lemma_component_shape(shorter, k);
            if has_root(shorter) {
                assert(path[0] == shorter[0]);
            }
        }
        if byte != SLASH {
            assert(open_piece(shorter).push(byte).last() != SLASH);
        }
    }
}

/// Where some prefix has the wanted components, there is a shortest one.
proof fn lemma_shortest_exists(path: Seq<u8>, wanted: Seq<Seq<u8>>, end: int)
    requires
        0 <= end <= path.len(),
        components(path.take(end)) == wanted,
    ensures
        exists|e: int| ends_at(path, wanted, e),
    decreases end,
{
    if exists|j: int| 0 <= j < end && components(#[trigger] path.take(j)) == wanted {
        let j = choose|j: int| 0 <= j < end && components(#[trigger] path.take(j)) == wanted;
        lemma_shortest_exists(path, wanted, j);
    } else {
        assert(ends_at(path, wanted, end));
    }
}

/// Some prefix of a path has all of its components but the last.
proof fn lemma_prefix_without_last(path: Seq<u8>) -> (end: int)
    requires
        components(path).len() > 0,
    ensures
        0 <= end <= path.len(),
        components(path.take(end)) == components(path).drop_last(),
    decreases path.len(),
{
    if path.len() == 0 {
        lemma_components_step(path, 0);
        assert(crate::text::split_on(path, SLASH) == seq![Seq::<u8>::empty()]);
        assert(closed_pieces(path) =~= Seq::empty());
        assert(components(path) =~= Seq::empty());
        0
    } else {
        let shorter = path.drop_last();
        let byte = path.last();
        assert(path =~= shorter.push(byte));
        lemma_step_weight(shorter, byte);
        assert(path.take(shorter.len() as int) =~= shorter);
        let grown = open_piece(shorter).push(byte);
        assert(components(shorter).push(grown).drop_last() =~= components(shorter));
        assert(components(shorter).drop_last().push(grown).drop_last() =~= components(
            shorter,
        ).drop_last());
        assert(seq![seq![SLASH]].drop_last() =~= Seq::<Seq<u8>>::empty());
        if components(path).drop_last() == components(shorter) {
            shorter.len() as int
        } else if components(shorter).len() > 0 {
            let end = lemma_prefix_without_last(shorter);
            assert(path.take(end) =~= shorter.take(end));
            end
        } else {
            assert(components(path).drop_last() =~= components(shorter));
            0
        }
    }
}

/// Dropping the last component of a path leaves exactly the others.
pub proof fn law_parent_drops_last(path: Seq<u8>)
    requires
        has_parent(path),
    ensures
        parent_of(path) is Some,
        parent_of(path)->0.is_prefix_of(path),
        components(parent_of(path)->0) == components(path).drop_last(),
{
    let wanted = components(path).drop_last();
    let some_end = lemma_prefix_without_last(path);
    lemma_shortest_exists(path, wanted, some_end);
    let end = choose|end: int| ends_at(path, wanted, end);
    assert(ends_at(path, wanted, end));
}

/// Whether a byte string can be the name of a directory entry.
pub open spec fn is_plain_name(name: Seq<u8>) -> bool {
    &&& name.len() > 0
    &&& is_entry_name(name)
    &&& !name.contains(SLASH)
}

/// Bytes other than a slash extend the piece that is being read.
proof fn lemma_open_piece_grows(path: Seq<u8>, tail: Seq<u8>)
    requires
        !tail.contains(SLASH),
    ensures
        closed_pieces(path + tail) == closed_pieces(path),
        open_piece(path + tail) == open_piece(path) + tail,
        path.len() > 0 ==> root_part(path + tail) == root_part(path),
    decreases tail.len(),
{
    if tail.len() == 0 {
        assert(path + tail =~= path);
        assert(open_piece(path) + tail =~= open_piece(path));
    } else {
        let start = tail.drop_last();
        assert forall|b: u8| start.contains(b) implies tail.contains(b) by {
            let k = choose|k: int| 0 <= k < start.len() && start[k] == b;
            assert(tail[k] == b);
        }
        lemma_open_piece_grows(path, start);
        assert(tail[tail.len() - 1] == tail.last());
        assert(tail.last() != SLASH);
        assert(path + tail =~= (path + start).push(tail.last()));
        lemma_components_step(path + start, tail.last());
        assert(open_piece(path) + tail =~= (open_piece(path) + start).push(tail.last()));
        if path.len() > 0 {
            assert((path + tail)[0] == path[0]);
        }
    }
}

/// Joining a name adds it as the last component. The parent directory counts
/// as one; the directory itself only where there is nothing before it.
pub proof fn law_join_adds_name(path: Seq<u8>, name: Seq<u8>)
    requires
        name.len() > 0,
        !name.contains(47u8),
    ensures
        name != seq![46u8] || path.len() == 0 ==> components(joined(path, name)) == components(
            path,
        ).push(name),
        name == seq![46u8] && path.len() > 0 ==> components(joined(path, name)) == components(path),
{
    assert(name[0] != SLASH) by {
        assert(name.contains(name[0]));
    }
    let base = if path.len() > 0 && path.last() != SLASH {
        path.push(SLASH)
    } else {
        path
    };
    assert(joined(path, name) =~= base + name);
    lemma_step_weight(path, SLASH);
    assert(components(base) == components(path));
    if base.len() == 0 {
        assert(crate::text::split_on(base, SLASH) == seq![Seq::<u8>::empty()]);
        assert(closed_pieces(base) =~= Seq::empty());
        assert(open_piece(base) =~= Seq::empty());
        assert((base + name)[0] == name[0]);
        assert(root_part(base + name) =~= root_part(base));
    } else {
        let before = base.drop_last();
        assert(base =~= before.push(SLASH));
        lemma_components_step(before, SLASH);
    }
    lemma_components_step(base, SLASH);
    lemma_open_piece_grows(base, name);
    lemma_components_step(base + name, SLASH);
    assert(open_piece(base) + name =~= name);
    if name != seq![46u8] || path.len() == 0 {
        assert(components(base + name) =~= components(base).push(name));
    } else {
        assert(closed_pieces(base).len() > 0);
        assert(components(base + name) =~= components(base));
    }
}

/// Joining a plain name adds it as the last component.
pub proof fn law_join_adds_component(path: Seq<u8>, name: Seq<u8>)
    requires
        is_plain_name(name),
    ensures
        components(joined(path, name)) == components(path).push(name),
{
    law_join_adds_name(path, name);
}

/// A path on a Unix system.
#[derive(Debug)]
pub struct UnixPath {
    bytes: Vec<u8>,
}

impl View for UnixPath {
    type V = Seq<u8>;

    closed spec fn view(&self) -> Seq<u8> {
        self.bytes@
    }
}

/// The bytes of an optional byte string.
pub open spec fn opt_bytes(bytes: Option<Vec<u8>>) -> Option<Seq<u8>> {
    match bytes {
        Some(b) => Some(b@),
        None => None,
    }
}

/// The text of an optional path.
pub open spec fn opt_path(path: Option<UnixPath>) -> Option<Seq<u8>> {
    match path {
        Some(p) => Some(p@),
        None => None,
    }
}

/// The texts of a list of paths.
pub open spec fn path_texts(paths: Seq<UnixPath>) -> Seq<Seq<u8>> {
    paths.map_values(|p: UnixPath| p@)
}

/// The bytes of each of a list of byte strings.
pub open spec fn byte_views(list: Seq<Vec<u8>>) -> Seq<Seq<u8>> {
    list.map_values(|v: Vec<u8>| v@)
}

/// A copy of some bytes.
pub fn copy_bytes(bytes: &[u8]) -> (copy: Vec<u8>)
    ensures
        copy@ == bytes@,
{
    let mut copy: Vec<u8> = Vec::new();
    let mut i: usize = 0;
    while i < bytes.len()
        invariant
            i <= bytes.len(),
            copy@ == bytes@.take(i as int),
        decreases bytes.len() - i,
    {
        copy.push(bytes[i]);
        proof {
            assert(bytes@.take(i as int + 1) =~= bytes@.take(i as int).push(bytes@[i as int]));
        }
        i = i + 1;
    }
    assert(bytes@.take(bytes@.len() as int) =~= bytes@);
    copy
}

/// Whether two byte strings are the same.
pub fn same_bytes(a: &[u8], b: &[u8]) -> (same: bool)
    ensures
        same == (a@ == b@),
{
    if a.len() != b.len() {
        return false;
    }
    let mut i: usize = 0;
    while i < a.len()
        invariant
            i <= a.len(),
            a@.len() == b@.len(),
            a@.take(i as int) == b@.take(i as int),
        decreases a.len() - i,
    {
        if a[i] != b[i] {
            return false;
        }
        proof {
            assert(a@.take(i as int + 1) =~= a@.take(i as int).push(a@[i as int]));
            assert(b@.take(i as int + 1) =~= b@.take(i as int).push(b@[i as int]));
        }
        i = i + 1;
    }
    assert(a@.take(a@.len() as int) =~= a@);
    assert(b@.take(b@.len() as int) =~= b@);
    true
}

/// The bytes of a string, as they are stored.
pub fn str_bytes(text: &str) -> (bytes: Vec<u8>)
    ensures
        bytes@ == vstd::utf8::encode_utf8(text@),
{
    copy_bytes(text.as_bytes())
}

/// Whether the piece between two slashes is a component.
fn piece_counts(first: bool, piece: &Vec<u8>) -> (counts: bool)
    ensures
        counts == is_component(
            if first {
                0int
            } else {
                1int
            },
            piece@,
        ),
{
    if piece.len() == 0 {
        false
    } else if piece.len() == 1 && piece[0] == DOT {
        assert(piece@ =~= seq![DOT]);
        first
    } else {
        assert(piece@ != seq![DOT]);
        true
    }
}

/// The components of a path's text.
fn split_components(text: &[u8]) -> (parts: Vec<Vec<u8>>)
    ensures
        byte_views(parts@) == components(text@),
{
    let mut parts: Vec<Vec<u8>> = Vec::new();
    let mut piece: Vec<u8> = Vec::new();
    let mut first: bool = true;
    let mut i: usize = 0;
    proof {
        let start = text@.take(0);
        assert(start =~= Seq::empty());
        assert(crate::text::split_on(start, SLASH) == seq![Seq::<u8>::empty()]);
        assert(closed_pieces(start) =~= Seq::empty());
        assert(byte_views(parts@) =~= Seq::empty());
        assert(root_part(start) + named_pieces(closed_pieces(start)) =~= Seq::empty());
    }
    while i < text.len()
        invariant
            i <= text.len(),
            first == (closed_pieces(text@.take(i as int)).len() == 0),
            piece@ == open_piece(text@.take(i as int)),
            byte_views(parts@) == root_part(text@.take(i as int)) + named_pieces(
                closed_pieces(text@.take(i as int)),
            ),
        decreases text.len() - i,
    {
        let byte: u8 = text[i];
        let ghost seen = text@.take(i as int);
        let ghost old_parts = parts@;
        proof {
            assert(text@.take(i as int + 1) =~= seen.push(byte));
            lemma_components_step(seen, byte);
            if i > 0 {
                lemma_root_stays(seen, byte);
            }
            assert(closed_pieces(seen.push(byte)).drop_last() =~= closed_pieces(seen) || byte != SLASH);
        }
        if byte == SLASH {
            if i == 0 {
                proof {
                    assert(seen =~= Seq::empty());
                    assert(crate::text::split_on(seen, SLASH) == seq![Seq::<u8>::empty()]);
                    assert(closed_pieces(seen) =~= Seq::empty());
                }
                let mut root: Vec<u8> = Vec::new();
                root.push(SLASH);
                parts.push(root);
                proof {
                    assert(root@ =~= seq![SLASH]);
                    assert(byte_views(parts@) =~= byte_views(old_parts).push(root@));
                    assert(byte_views(parts@) =~= root_part(seen.push(byte)) + named_pieces(
                        closed_pieces(seen.push(byte)),
                    ));
                }
            } else if piece_counts(first, &piece) {
                proof {
                    assert(byte_views(parts@.push(piece)) =~= byte_views(parts@).push(piece@));
                }
                parts.push(piece);
                proof {
                    assert(byte_views(parts@) =~= root_part(seen.push(byte)) + named_pieces(
                        closed_pieces(seen.push(byte)),
                    ));
                }
            }
            piece = Vec::new();
            first = false;
        } else {
            piece.push(byte);
            proof {
                if i == 0 {
                    assert(root_part(seen.push(byte)) =~= root_part(seen));
                }
            }
        }
        i = i + 1;
    }
    proof {
        assert(text@.take(text@.len() as int) =~= text@);
        lemma_components_step(text@, 0);
    }
    if piece_counts(first, &piece) {
        proof {
            assert(byte_views(parts@.push(piece)) =~= byte_views(parts@).push(piece@));
        }
        parts.push(piece);
    }
    proof {
        assert(byte_views(parts@) =~= components(text@));
    }
    parts
}

/// Two texts are equal as paths when they have the same components.
impl PartialEq for UnixPath {
    fn eq(&self, other: &Self) -> (same: bool) {
        self.same_path(other)
    }
}

impl vstd::std_specs::cmp::PartialEqSpecImpl for UnixPath {
    open spec fn obeys_eq_spec() -> bool {
        true
    }

    open spec fn eq_spec(&self, other: &Self) -> bool {
        components(self@) == components(other@)
    }
}

impl UnixPath {
    /// The path with this text.
    pub fn new(bytes: &[u8]) -> (path: Self)
        ensures
            path@ == bytes@,
    {
        UnixPath { bytes: copy_bytes(bytes) }
    }

    /// The path with this text.
    pub fn from_text(text: &str) -> (path: Self)
        ensures
            path@ == vstd::utf8::encode_utf8(text@),
    {
        UnixPath { bytes: str_bytes(text) }
    }

    /// The text of the path.
    pub fn as_bytes(&self) -> (bytes: &[u8])
        ensures
            bytes@ == self@,
    {
        self.bytes.as_slice()
    }

    /// A second copy of the path, with the same text.
    pub fn duplicate(&self) -> (path: Self)
        ensures
            path@ == self@,
    {
        UnixPath { bytes: copy_bytes(self.bytes.as_slice()) }
    }

    /// Whether the path has no text.
    pub fn is_empty(&self) -> (empty: bool)
        ensures
            empty == (self@.len() == 0),
    {
        self.bytes.len() == 0
    }

    /// Whether the path starts at the root directory.
    pub fn is_absolute(&self) -> (absolute: bool)
        ensures
            absolute == has_root(self@),
    {
        self.bytes.len() > 0 && self.bytes[0] == SLASH
    }

    /// The components of the path.
    pub fn components(&self) -> (parts: Vec<Vec<u8>>)
        ensures
            byte_views(parts@) == components(self@),
    {
        split_components(self.bytes.as_slice())
    }

    /// Whether two texts name the same path.
    pub fn same_path(&self, other: &Self) -> (same: bool)
        ensures
            same == (components(self@) == components(other@)),
    {
        let a: Vec<Vec<u8>> = self.components();
        let b: Vec<Vec<u8>> = other.components();
        if a.len() != b.len() {
            assert(byte_views(a@).len() != byte_views(b@).len());
            return false;
        }
        let mut i: usize = 0;
        while i < a.len()
            invariant
                i <= a.len(),
                a@.len() == b@.len(),
                byte_views(a@) == components(self@),
                byte_views(b@) == components(other@),
                forall|k: int| 0 <= k < i ==> components(self@)[k] == #[trigger] components(other@)[k],
            decreases a.len() - i,
        {
            assert(byte_views(a@)[i as int] == a@[i as int]@);
            assert(byte_views(b@)[i as int] == b@[i as int]@);
            if !same_bytes(a[i].as_slice(), b[i].as_slice()) {
                return false;
            }
            i = i + 1;
        }
        assert(components(self@) =~= components(other@));
        true
    }

    /// The name of the directory entry the path ends with, if it ends with one.
    pub fn file_name(&self) -> (name: Option<Vec<u8>>)
        ensures
            opt_bytes(name) == file_name_of(self@),
    {
        let mut parts: Vec<Vec<u8>> = self.components();
        let ghost all = parts@;
        assert(byte_views(all).len() == all.len());
        match parts.pop() {
            None => None,
            Some(last) => {
                assert(byte_views(all).last() == last@);
                proof {
                    lemma_component_shape(self@, components(self@).len() - 1);
                }
                if last.len() == 1 && (last[0] == SLASH || last[0] == DOT) {
                    assert(last@ =~= seq![last@[0]]);
                    None
                } else if last.len() == 2 && last[0] == DOT && last[1] == DOT {
                    assert(last@ =~= seq![DOT, DOT]);
                    None
                } else {
                    Some(last)
                }
            },
        }
    }

    /// The path extended by `tail`.
    pub fn join(&self, tail: &[u8]) -> (path: Self)
        ensures
            path@ == joined(self@, tail@),
    {
        if tail.len() > 0 && tail[0] == SLASH {
            return UnixPath { bytes: copy_bytes(tail) };
        }
        let mut bytes: Vec<u8> = copy_bytes(self.bytes.as_slice());
        if bytes.len() > 0 && bytes[bytes.len() - 1] != SLASH {
            bytes.push(SLASH);
        }
        let ghost start = bytes@;
        let mut i: usize = 0;
        while i < tail.len()
            invariant
                i <= tail.len(),
                bytes@ == start + tail@.take(i as int),
            decreases tail.len() - i,
        {
            bytes.push(tail[i]);
            proof {
                assert(start + tail@.take(i as int + 1) =~= (start + tail@.take(i as int)).push(
                    tail@[i as int],
                ));
            }
            i = i + 1;
        }
        assert(tail@.take(tail@.len() as int) =~= tail@);
        assert(bytes@ =~= joined(self@, tail@));
        UnixPath { bytes }
    }

    /// The path without its last component. The root and the empty path have
    /// none to drop.
    pub fn parent(&self) -> (parent: Option<Self>)
        ensures
            opt_path(parent) == parent_of(self@),
    {
        let text: &[u8] = self.bytes.as_slice();
        let ghost whole = self@;
        let mut first: bool = true;
        let mut piece: Vec<u8> = Vec::new();
        let mut all_end: usize = 0;
        let mut rest_end: usize = 0;
        let mut only_root: bool = false;
        let mut count: usize = 0;
        let mut i: usize = 0;
        proof {
            let start = whole.take(0);
            assert(start =~= Seq::empty());
            assert(crate::text::split_on(start, SLASH) == seq![Seq::<u8>::empty()]);
            assert(closed_pieces(start) =~= Seq::empty());
            lemma_components_step(start, 0);
            assert(components(start) =~= Seq::empty());
        }
        while i < text.len()
            invariant
                text@ == whole,
                i <= text.len(),
                count <= i,
                first == (closed_pieces(whole.take(i as int)).len() == 0),
                piece@ == open_piece(whole.take(i as int)),
                count == components(whole.take(i as int)).len(),
                only_root == (count > 0 && components(whole.take(i as int)).last() == seq![SLASH]),
                ends_at(whole, components(whole.take(i as int)), all_end as int),
                count > 0 ==> ends_at(
                    whole,
                    components(whole.take(i as int)).drop_last(),
                    rest_end as int,
                ),
                forall|j: int|
                    0 <= j <= i ==> weight(components(#[trigger] whole.take(j))) <= weight(
                        components(whole.take(i as int)),
                    ),
            decreases text.len() - i,
        {
            let byte: u8 = text[i];
            let ghost seen = whole.take(i as int);
            let ghost longer = whole.take(i as int + 1);
            proof {
                assert(longer =~= seen.push(byte));
                lemma_components_step(seen, byte);
                lemma_step_weight(seen, byte);
            }
            if byte == SLASH {
                if i == 0 {
                    all_end = 1;
                    rest_end = 0;
                    only_root = true;
                    count = 1;
                    proof {
                        assert(components(longer).drop_last() =~= components(seen));
                    }
                }
                piece = Vec::new();
                first = false;
            } else {
                let counted: bool = piece_counts(first, &piece);
                piece.push(byte);
                let counts: bool = piece_counts(first, &piece);
                proof {
                    let named = open_piece(seen).push(byte);
                    assert(named.last() == byte);
                    assert(seq![SLASH].last() == SLASH);
                }
                if counted {
                    all_end = i + 1;
                    only_root = false;
                    proof {
                        assert(components(longer).drop_last() =~= components(seen).drop_last());
                    }
                } else if counts {
                    rest_end = all_end;
                    all_end = i + 1;
                    only_root = false;
                    count = count + 1;
                    proof {
                        assert(components(longer).drop_last() =~= components(seen));
                    }
                }
            }
            i = i + 1;
        }
        assert(whole.take(whole.len() as int) =~= whole);
        if count == 0 || only_root {
            return None;
        }
        proof {
            let rest = components(whole).drop_last();
            lemma_end_unique(
                whole,
                rest,
                rest_end as int,
                choose|end: int| ends_at(whole, rest, end),
            );
        }
        let mut bytes: Vec<u8> = Vec::new();
        let mut k: usize = 0;
        while k < rest_end
            invariant
                text@ == whole,
                k <= rest_end <= whole.len(),
                bytes@ == whole.take(k as int),
            decreases rest_end - k,
        {
            bytes.push(text[k]);
            proof {
                assert(whole.take(k as int + 1) =~= whole.take(k as int).push(whole[k as int]));
            }
            k = k + 1;
        }
        Some(UnixPath { bytes })
    }
}

/// Joining puts one slash between two texts that have none there; a path that
/// starts at the root replaces what it is joined to.
pub proof fn law_join_puts_one_slash(path: Seq<u8>, tail: Seq<u8>)
    ensures
        tail.len() > 0 && tail[0] == 47 ==> joined(path, tail) == tail,
        !(tail.len() > 0 && tail[0] == 47) && path.len() > 0 && path[path.len() - 1] != 47
            ==> joined(path, tail) == path + seq![47u8] + tail,
        !(tail.len() > 0 && tail[0] == 47) && path.len() > 0 && path[path.len() - 1] == 47
            ==> joined(path, tail) == path + tail,
        !(tail.len() > 0 && tail[0] == 47) && path.len() == 0 ==> joined(path, tail) == tail,
{
    assert(path.push(SLASH) =~= path + seq![47u8]);
    if path.len() == 0 {
        assert(path + tail =~= tail);
    }
}

/// The empty path has no component and the root one; a slash at the end of a
/// path adds none. A path starts at the root exactly if a slash is its first
/// byte.
pub proof fn law_slashes_part_components(path: Seq<u8>)
    ensures
        components(Seq::empty()).len() == 0,
        components(seq![47u8]) == seq![seq![47u8]],
        path.len() > 0 ==> components(path.push(47u8)) == components(path),
        has_root(path) <==> path.len() > 0 && path[0] == 47,
        has_root(path) ==> components(path).len() > 0 && components(path)[0] == seq![47u8],
{
    let none = Seq::<u8>::empty();
    lemma_step_weight(none, 47u8);
    assert(none.push(47u8) =~= seq![47u8]);
    lemma_step_weight(path, 47u8);
}

/// A path has no parent exactly if it has no component or is the root. A parent
/// is the shortest start of the text that has all components but the last.
pub proof fn law_only_root_and_empty_have_no_parent(path: Seq<u8>, shorter: int)
    ensures
        parent_of(path) is None <==> components(path).len() == 0 || components(path) == seq![
            seq![47u8],
        ],
        parent_of(path) matches Some(parent) ==> {
            &&& parent.is_prefix_of(path)
            &&& components(parent) == components(path).drop_last()
            &&& 0 <= shorter < parent.len() ==> components(path.take(shorter)) != components(parent)
        },
{
    let all = components(path);
    if all.len() > 0 && all.last() == seq![SLASH] {
        lemma_component_shape(path, all.len() - 1);
        assert(all =~= seq![seq![47u8]]);
    }
    if has_parent(path) {
        law_parent_drops_last(path);
        let wanted = components(path).drop_last();
        let some_end = lemma_prefix_without_last(path);
        lemma_shortest_exists(path, wanted, some_end);
        let end = choose|end: int| ends_at(path, wanted, end);
        assert(ends_at(path, wanted, end));
    }
}

/// The name a path ends with is that of its last component, where that is an
/// entry of a directory: the root, the directory itself and its parent are not.
pub proof fn law_file_name_is_last_component(path: Seq<u8>, name: Seq<u8>)
    ensures
        name.len() > 0 && !name.contains(47u8) && name != seq![46u8] && name != seq![46u8, 46u8]
            ==> file_name_of(joined(path, name)) == Some(name),
        file_name_of(joined(path, seq![46u8, 46u8])) is None,
        file_name_of(seq![47u8]) is None,
        file_name_of(seq![46u8]) is None,
        file_name_of(Seq::empty()) is None,
        path.len() > 0 ==> file_name_of(path.push(47u8)) == file_name_of(path),
        file_name_of(path) matches Some(found) ==> components(path).len() > 0 && components(
            path,
        ).last() == found,
{
    law_slashes_part_components(path);
    let up = seq![46u8, 46u8];
    let here = seq![46u8];
    assert(!up.contains(47u8)) by {
        assert(up[0] == 46u8 && up[1] == 46u8);
    }
    assert(!here.contains(47u8)) by {
        assert(here[0] == 46u8);
    }
    assert(up.len() == 2 && here.len() == 1);
    law_join_adds_name(path, up);
    law_join_adds_name(Seq::empty(), here);
    law_join_puts_one_slash(Seq::empty(), here);
    if name.len() > 0 && !name.contains(47u8) {
        law_join_adds_name(path, name);
        assert(name != seq![47u8]) by {
            if name == seq![47u8] {
                assert(name[0] == 47u8);
            }
        }
    }
    assert(components(seq![47u8]).last() == seq![47u8]);
}

/// Paths are seen as the bytes they are, in their order, and two are the same
/// exactly if their components are.
pub proof fn law_paths_are_their_bytes(
    paths: Seq<UnixPath>,
    lists: Seq<Vec<u8>>,
    path: UnixPath,
    bytes: Vec<u8>,
    k: int,
)
    ensures
        path_texts(paths).len() == paths.len(),
        0 <= k < paths.len() ==> path_texts(paths)[k] == paths[k]@,
        byte_views(lists).len() == lists.len(),
        0 <= k < lists.len() ==> byte_views(lists)[k] == lists[k]@,
        opt_path(Some(path)) == Some(path@),
        opt_path(None) is None,
        opt_bytes(Some(bytes)) == Some(bytes@),
        opt_bytes(None) is None,
        SLASH == 47 && DOT == 46,
{
}

} // verus!
