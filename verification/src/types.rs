//! Shared types: widget identity, geometry and click events.
//!
//! Accessibility object references do not survive a restart of the
//! application that owns them, so nothing here is keyed by one. A widget is
//! known by four durable, semantic properties: the application it belongs to,
//! its accessible role, its label, and its path from the root of the
//! accessibility tree.
use vstd::prelude::*;

use std::collections::hash_map::DefaultHasher;
use std::hash::Hasher;

use crate::scalar::Scalar;
use vstd::string::StringSliceAdditionalSpecFns;

verus! {

/// Whether a mathematical integer is representable as an `i32`.
pub open spec fn in_i32(n: int) -> bool {
    i32::MIN <= n <= i32::MAX
}

/// Half of `n`, rounded toward zero.
pub open spec fn half(n: int) -> int {
    if n >= 0 {
        n / 2
    } else {
        -((-n) / 2)
    }
}

/// A screen-space rectangle, in logical pixels.
#[derive(Debug, Clone, Copy, PartialEq, Eq, Structural)]
pub struct Rect {
    pub x: i32,
    pub y: i32,
    pub w: i32,
    pub h: i32,
}

impl Rect {
    /// The point `(x, y)` lies in the half-open box that this rectangle spans.
    pub open spec fn covers(self, x: int, y: int) -> bool {
        &&& self.x <= x < self.x + self.w
        &&& self.y <= y < self.y + self.h
    }

    /// The middle of the rectangle; an odd extent rounds toward the origin
    /// corner.
    pub open spec fn middle(self) -> (int, int) {
        (self.x + half(self.w as int), self.y + half(self.h as int))
    }

    /// The middle is a pair of `i32` coordinates.
    pub open spec fn has_center(self) -> bool {
        in_i32(self.middle().0) && in_i32(self.middle().1)
    }

    /// Testing `(x, y)` against the edges, left to right and then top to
    /// bottom, stays within `i32`. An edge only matters once the tests before
    /// it have passed.
    pub open spec fn can_test(self, x: int, y: int) -> bool {
        &&& x >= self.x ==> in_i32(self.x + self.w)
        &&& x >= self.x && x < self.x + self.w && y >= self.y ==> in_i32(self.y + self.h)
    }

    /// The middle of the rectangle.
    pub fn center(&self) -> (point: (i32, i32))
        requires
            self.has_center(),
        ensures
            point.0 == self.middle().0,
            point.1 == self.middle().1,
    {
        (self.x + self.w / 2, self.y + self.h / 2)
    }

    /// Whether the point `(x, y)` lies inside. The right and bottom edges are
    /// outside.
    pub fn contains(&self, x: i32, y: i32) -> (inside: bool)
        requires
            self.can_test(x as int, y as int),
        ensures
            inside == self.covers(x as int, y as int),
    {
        x >= self.x && x < self.x + self.w && y >= self.y && y < self.y + self.h
    }

    /// Whether [`Rect::center`] may be called.
    pub fn center_in_range(&self) -> (ok: bool)
        ensures
            ok == self.has_center(),
    {
        let cx: i64 = self.x as i64 + (self.w / 2) as i64;
        let cy: i64 = self.y as i64 + (self.h / 2) as i64;
        i32::MIN as i64 <= cx && cx <= i32::MAX as i64 && i32::MIN as i64 <= cy && cy
            <= i32::MAX as i64
    }

    /// Whether [`Rect::contains`] may be asked about `(x, y)`.
    pub fn test_in_range(&self, x: i32, y: i32) -> (ok: bool)
        ensures
            ok == self.can_test(x as int, y as int),
    {
        if x < self.x {
            return true;
        }
        let right: i64 = self.x as i64 + self.w as i64;
        if right < i32::MIN as i64 || right > i32::MAX as i64 {
            return false;
        }
        if x as i64 >= right || y < self.y {
            return true;
        }
        let bottom: i64 = self.y as i64 + self.h as i64;
        i32::MIN as i64 <= bottom && bottom <= i32::MAX as i64
    }
}

/// A rectangle with a positive extent in both directions covers its own
/// middle: a click delivered to the center of a widget lands on that widget.
pub proof fn law_center_is_inside(rect: Rect)
    requires
        rect.w > 0,
        rect.h > 0,
    ensures
        rect.covers(rect.middle().0, rect.middle().1),
{
}

/// A rectangle without a positive extent covers no point at all.
pub proof fn law_empty_rect_covers_nothing(rect: Rect, x: int, y: int)
    requires
        rect.w <= 0 || rect.h <= 0,
    ensures
        !rect.covers(x, y),
{
}

/// `String::from` on a borrowed string copies its characters.
pub assume_specification<'a>[ <String as core::convert::From<&'a str>>::from ](s: &str) -> (copy:
    String)
    ensures
        copy@ == s@,
;

/// The conversion of a type to itself returns its argument unchanged.
pub assume_specification<T>[ <T as core::convert::From<T>>::from ](value: T) -> (same: T)
    ensures
        same == value,
;

/// What a [`WidgetKey`] says: four character sequences.
#[verifier::ext_equal]
pub struct WidgetIdentity {
    pub app_id: Seq<char>,
    pub role: Seq<char>,
    pub label: Seq<char>,
    pub tree_path: Seq<char>,
}

/// A durable identity for a single interactive widget, valid across restarts
/// of the application that draws it.
#[derive(Debug, Eq, Hash)]
pub struct WidgetKey {
    pub app_id: String,
    pub role: String,
    pub label: String,
    pub tree_path: String,
}

impl View for WidgetKey {
    type V = WidgetIdentity;

    open spec fn view(&self) -> WidgetIdentity {
        WidgetIdentity {
            app_id: self.app_id@,
            role: self.role@,
            label: self.label@,
            tree_path: self.tree_path@,
        }
    }
}

impl Clone for WidgetKey {
    fn clone(&self) -> (key: WidgetKey)
        ensures
            key@ == self@,
    {
        WidgetKey {
            app_id: self.app_id.clone(),
            role: self.role.clone(),
            label: self.label.clone(),
            tree_path: self.tree_path.clone(),
        }
    }
}

impl PartialEq for WidgetKey {
    fn eq(&self, other: &WidgetKey) -> (same: bool) {
        self.app_id == other.app_id && self.role == other.role && self.label == other.label
            && self.tree_path == other.tree_path
    }
}

impl vstd::std_specs::cmp::PartialEqSpecImpl for WidgetKey {
    open spec fn obeys_eq_spec() -> bool {
        true
    }

    open spec fn eq_spec(&self, other: &WidgetKey) -> bool {
        self@ == other@
    }
}

/// The byte that closes each field of a key. It occurs in no UTF-8 text, so
/// two different keys never feed the same bytes to the hasher.
pub const FIELD_END: u8 = 0xff;

/// What a key feeds to the hasher: each field in UTF-8, closed by
/// [`FIELD_END`].
pub open spec fn fingerprint_writes(id: WidgetIdentity) -> Seq<Seq<u8>> {
    seq![
        vstd::utf8::encode_utf8(id.app_id),
        seq![FIELD_END],
        vstd::utf8::encode_utf8(id.role),
        seq![FIELD_END],
        vstd::utf8::encode_utf8(id.label),
        seq![FIELD_END],
        vstd::utf8::encode_utf8(id.tree_path),
        seq![FIELD_END],
    ]
}

/// The stable 64-bit hash of an identity.
pub open spec fn fingerprint_of(id: WidgetIdentity) -> u64 {
    <DefaultHasher as vstd::std_specs::hash::DefaultHasherAdditionalSpecFns>::spec_finish(
        fingerprint_writes(id),
    )
}

impl WidgetKey {
    /// A key made of the four given properties, each converted to a `String`.
    pub fn new<A: Into<String>, R: Into<String>, L: Into<String>, P: Into<String>>(
        app_id: A,
        role: R,
        label: L,
        tree_path: P,
    ) -> (key: WidgetKey)
        ensures
            call_ensures(<A as Into<String>>::into, (app_id,), key.app_id),
            call_ensures(<R as Into<String>>::into, (role,), key.role),
            call_ensures(<L as Into<String>>::into, (label,), key.label),
            call_ensures(<P as Into<String>>::into, (tree_path,), key.tree_path),
    {
        WidgetKey {
            app_id: app_id.into(),
            role: role.into(),
            label: label.into(),
            tree_path: tree_path.into(),
        }
    }

    /// A stable 64-bit fingerprint of the identity, used as the key under which
    /// a widget is stored.
    pub fn fingerprint(&self) -> (fp: u64)
        ensures
            fp == fingerprint_of(self@),
    {
        let mut hasher = DefaultHasher::new();
        let end: [u8; 1] = [FIELD_END];
        hasher.write(self.app_id.as_str().as_bytes());
        hasher.write(&end);
        hasher.write(self.role.as_str().as_bytes());
        hasher.write(&end);
        hasher.write(self.label.as_str().as_bytes());
        hasher.write(&end);
        hasher.write(self.tree_path.as_str().as_bytes());
        hasher.write(&end);
        proof {
            assert(end@ =~= seq![FIELD_END]);
            assert(hasher@ =~= fingerprint_writes(self@));
        }
        hasher.finish()
    }
}

/// What is hashed identifies the widget: two identities that feed the hasher
/// the same bytes are the same identity.
pub proof fn law_hashed_bytes_identify(a: WidgetIdentity, b: WidgetIdentity)
    requires
        fingerprint_writes(a) == fingerprint_writes(b),
    ensures
        a == b,
{
    let left = fingerprint_writes(a);
    let right = fingerprint_writes(b);
    assert(left[0] == right[0] && left[2] == right[2] && left[4] == right[4] && left[6]
        == right[6]);
    lemma_utf8_injective(a.app_id, b.app_id);
    lemma_utf8_injective(a.role, b.role);
    lemma_utf8_injective(a.label, b.label);
    lemma_utf8_injective(a.tree_path, b.tree_path);
}

proof fn lemma_utf8_injective(a: Seq<char>, b: Seq<char>)
    requires
        vstd::utf8::encode_utf8(a) == vstd::utf8::encode_utf8(b),
    ensures
        a == b,
{
    vstd::utf8::encode_utf8_decode_utf8(a);
    vstd::utf8::encode_utf8_decode_utf8(b);
}

/// A single observed click.
#[derive(Debug)]
pub struct ClickEvent {
    pub widget: WidgetKey,
    /// Where the click landed on screen.
    pub click_pos: (i32, i32),
    /// Milliseconds from the widget becoming actionable to the click.
    pub reaction_time_ms: Scalar,
    /// The click first missed the widget and had to be corrected.
    pub was_correction: bool,
}

impl Clone for ClickEvent {
    fn clone(&self) -> (event: ClickEvent)
        ensures
            event.widget@ == self.widget@,
            event.click_pos == self.click_pos,
            event.reaction_time_ms == self.reaction_time_ms,
            event.was_correction == self.was_correction,
    {
        ClickEvent {
            widget: self.widget.clone(),
            click_pos: self.click_pos,
            reaction_time_ms: self.reaction_time_ms,
            was_correction: self.was_correction,
        }
    }
}

/// The points of a rectangle are its corner and what lies to the right of it and
/// below it, up to the width and the height.
pub proof fn law_rect_is_corner_and_extent(rect: Rect, dx: int, dy: int)
    ensures
        rect.covers(rect.x + dx, rect.y + dy) <==> 0 <= dx < rect.w && 0 <= dy < rect.h,
{
}

/// The middle is as far from one edge as from the other, give or take a pixel
/// that goes to the far side.
pub proof fn law_middle_is_between_the_edges(rect: Rect)
    ensures
        ({
            let (cx, cy) = rect.middle();
            let (left, right) = (cx - rect.x, rect.x + rect.w - cx);
            let (top, bottom) = (cy - rect.y, rect.y + rect.h - cy);
            &&& if rect.w >= 0 { left <= right <= left + 1 } else { right <= left <= right + 1 }
            &&& if rect.h >= 0 { top <= bottom <= top + 1 } else { bottom <= top <= bottom + 1 }
        }),
{
}

/// A rectangle whose far edges are 32-bit coordinates can be tested anywhere,
/// and its middle can be taken.
pub proof fn law_representable_rect_is_usable(rect: Rect, x: int, y: int)
    requires
        -0x8000_0000 <= rect.x + rect.w <= 0x7fff_ffff,
        -0x8000_0000 <= rect.y + rect.h <= 0x7fff_ffff,
    ensures
        rect.can_test(x, y),
        rect.has_center(),
{
}

/// Two keys are the same exactly when all four of their properties are.
pub proof fn law_key_is_its_properties(a: WidgetKey, b: WidgetKey)
    ensures
        a@ == b@ <==> a.app_id@ == b.app_id@ && a.role@ == b.role@ && a.label@ == b.label@
            && a.tree_path@ == b.tree_path@,
{
    assert(a.app_id@ == b.app_id@ && a.role@ == b.role@ && a.label@ == b.label@ && a.tree_path@
        == b.tree_path@ ==> a@ =~= b@);
}

/// The hasher reads the four properties in order, each in UTF-8 and closed by a
/// byte that no text holds.
pub proof fn law_hasher_reads_properties_in_order(id: WidgetIdentity)
    ensures
        ({
            let writes = fingerprint_writes(id);
            &&& writes.len() == 8
            &&& writes[0] == vstd::utf8::encode_utf8(id.app_id)
            &&& writes[2] == vstd::utf8::encode_utf8(id.role)
            &&& writes[4] == vstd::utf8::encode_utf8(id.label)
            &&& writes[6] == vstd::utf8::encode_utf8(id.tree_path)
            &&& forall|i: int| 0 <= i < 4 ==> #[trigger] writes[2 * i + 1] == seq![0xffu8]
        }),
{
    let writes = fingerprint_writes(id);
    assert(writes[1] == seq![0xffu8] && writes[3] == seq![0xffu8] && writes[5] == seq![0xffu8]
        && writes[7] == seq![0xffu8]);
}

} // verus!
