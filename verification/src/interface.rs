use vstd::prelude::*;

use std::ops::Range;

verus! {

/// Format of the data held by one location of a shader interface, by its Vulkan format code.
#[derive(Debug, Copy, Clone, PartialEq, Eq, Structural)]
pub struct Format(pub u32);

/// Size in bytes of one texel (or of one compressed block) of `format`, for the formats of
/// the Vulkan core specification; `None` for other codes.
pub open spec fn format_size_bytes(format: Format) -> Option<nat> {
    let c = format.0;
    if c == 1 {
        Some(1)  // R4G4_UNORM_PACK8
    } else if 2 <= c <= 8 {
        Some(2)  // the 16-bit packed formats
    } else if 9 <= c <= 15 {
        Some(1)  // R8
    } else if 16 <= c <= 22 {
        Some(2)  // R8G8
    } else if 23 <= c <= 36 {
        Some(3)  // R8G8B8, B8G8R8
    } else if 37 <= c <= 69 {
        Some(4)  // R8G8B8A8, B8G8R8A8, A8B8G8R8, A2R10G10B10, A2B10G10R10
    } else if 70 <= c <= 76 {
        Some(2)  // R16
    } else if 77 <= c <= 83 {
        Some(4)  // R16G16
    } else if 84 <= c <= 90 {
        Some(6)  // R16G16B16
    } else if 91 <= c <= 97 {
        Some(8)  // R16G16B16A16
    } else if 98 <= c <= 100 {
        Some(4)  // R32
    } else if 101 <= c <= 103 {
        Some(8)  // R32G32
    } else if 104 <= c <= 106 {
        Some(12)  // R32G32B32
    } else if 107 <= c <= 109 {
        Some(16)  // R32G32B32A32
    } else if 110 <= c <= 112 {
        Some(8)  // R64
    } else if 113 <= c <= 115 {
        Some(16)  // R64G64
    } else if 116 <= c <= 118 {
        Some(24)  // R64G64B64
    } else if 119 <= c <= 121 {
        Some(32)  // R64G64B64A64
    } else if c == 122 || c == 123 {
        Some(4)  // B10G11R11_UFLOAT_PACK32, E5B9G9R9_UFLOAT_PACK32
    } else if c == 124 {
        Some(2)  // D16_UNORM
    } else if c == 125 || c == 126 {
        Some(4)  // X8_D24_UNORM_PACK32, D32_SFLOAT
    } else if c == 127 {
        Some(1)  // S8_UINT
    } else if c == 128 {
        Some(3)  // D16_UNORM_S8_UINT
    } else if c == 129 {
        Some(4)  // D24_UNORM_S8_UINT
    } else if c == 130 {
        Some(5)  // D32_SFLOAT_S8_UINT
    } else if 131 <= c <= 134 || 139 <= c <= 140 || 147 <= c <= 150 || 153 <= c <= 154 {
        Some(8)  // BC1, BC4, ETC2 RGB and RGB A1, EAC R11 blocks
    } else if 135 <= c <= 138 || 141 <= c <= 146 || 151 <= c <= 152 || 155 <= c <= 184 {
        Some(16)  // BC2, BC3, BC5, BC6H, BC7, ETC2 RGBA8, EAC R11G11, ASTC blocks
    } else {
        None
    }
}

/// `format` is a known format whose texels (or blocks) are not larger than 128 bits.
pub open spec fn format_fits_128_bits(format: Format) -> bool {
    format_size_bytes(format) matches Some(n) && n <= 16
}

/// Entry of a shader interface definition.
#[derive(Debug)]
pub struct ShaderInterfaceDefEntry {
    /// Range of locations covered by the element.
    pub location: Range<u32>,
    /// Format of each location of the element.
    pub format: Format,
    /// Name of the element, or `None` if the name is unknown.
    pub name: Option<String>,
}

impl Clone for ShaderInterfaceDefEntry {
    fn clone(&self) -> (r: Self)
        ensures
            r == *self,
    {
        let name = match &self.name {
            Some(n) => Some(n.clone()),
            None => None,
        };
        ShaderInterfaceDefEntry {
            location: Range { start: self.location.start, end: self.location.end },
            format: self.format,
            name,
        }
    }
}

/// Types that contain the definition of an interface between two shader stages, or between
/// the outside and a shader stage.
///
/// Implementations must provide only one entry per location, and the format of each element
/// must not be larger than 128 bits.
pub trait ShaderInterfaceDef {
    /// The elements of the interface, the same on every call.
    spec fn spec_elements(&self) -> Seq<ShaderInterfaceDefEntry>;

    /// The elements of the interface, with only one entry per location and formats of at
    /// most 128 bits.
    fn elements(&self) -> (r: Vec<ShaderInterfaceDefEntry>)
        ensures
            r@ == self.spec_elements(),
            one_entry_per_location(r@),
            forall|i: int| 0 <= i < r@.len() ==> format_fits_128_bits(#[trigger] r@[i].format),
    ;
}

/// Description of an empty shader interface.
#[derive(Debug, Copy, Clone)]
pub struct EmptyShaderInterfaceDef;

impl ShaderInterfaceDef for EmptyShaderInterfaceDef {
    open spec fn spec_elements(&self) -> Seq<ShaderInterfaceDefEntry> {
        Seq::empty()
    }

    fn elements(&self) -> (r: Vec<ShaderInterfaceDefEntry>) {
        Vec::new()
    }
}

/// Extension trait for `ShaderInterfaceDef` that specifies that the interface is potentially
/// compatible with another one.
pub trait ShaderInterfaceDefMatch<I: ShaderInterfaceDef>: ShaderInterfaceDef {
    /// Returns `Ok` if the two definitions match.
    fn matches(&self, other: &I) -> Result<(), ShaderInterfaceMismatchError>;
}

impl<T: ShaderInterfaceDef, I: ShaderInterfaceDef> ShaderInterfaceDefMatch<I> for T {
    /// Matches the elements of `self` against those of `other`, as `match_interfaces` does.
    fn matches(&self, other: &I) -> (r: Result<(), ShaderInterfaceMismatchError>)
        ensures
            r == interface_match(self.spec_elements(), other.spec_elements()),
    {
        let entries = self.elements();
        let others = other.elements();
        match_interfaces(&entries, &others)
    }
}

/// Error that can happen when the interface mismatches between two shader stages.
#[derive(Clone, Debug, PartialEq, Eq, Structural)]
pub enum ShaderInterfaceMismatchError {
    ElementsCountMismatch,
    MissingElement { location: u32 },
    FormatMismatch,
}

impl ShaderInterfaceMismatchError {
    /// A short description of the error.
    pub fn description(&self) -> (r: &'static str)
        ensures
            r@ == match *self {
                ShaderInterfaceMismatchError::ElementsCountMismatch =>
                    "the number of elements mismatches"@,
                ShaderInterfaceMismatchError::MissingElement { .. } => "an element is missing"@,
                ShaderInterfaceMismatchError::FormatMismatch =>
                    "the format of an element does not match"@,
            },
    {
        match *self {
            ShaderInterfaceMismatchError::ElementsCountMismatch => "the number of elements mismatches",
            ShaderInterfaceMismatchError::MissingElement { .. } => "an element is missing",
            ShaderInterfaceMismatchError::FormatMismatch => "the format of an element does not match",
        }
    }
}

/// `entry` covers location `loc`.
pub open spec fn covers(entry: ShaderInterfaceDefEntry, loc: int) -> bool {
    entry.location.start <= loc < entry.location.end
}

/// `j` is the index of the first entry of `entries` that covers location `loc`.
pub open spec fn is_first_cover(entries: Seq<ShaderInterfaceDefEntry>, loc: int, j: int) -> bool {
    &&& 0 <= j < entries.len()
    &&& covers(entries[j], loc)
    &&& forall|k: int| 0 <= k < j ==> !covers(#[trigger] entries[k], loc)
}

/// Some entry of `entries` covers location `loc`.
pub open spec fn is_covered(entries: Seq<ShaderInterfaceDefEntry>, loc: int) -> bool {
    exists|j: int| 0 <= j < entries.len() && covers(#[trigger] entries[j], loc)
}

/// The first entry of `entries` that covers location `loc` (meaningful when `loc` is covered).
pub open spec fn first_cover(entries: Seq<ShaderInterfaceDefEntry>, loc: int) -> int {
    choose|j: int| is_first_cover(entries, loc, j)
}

/// What checking one location of an element of format `format` against the interface
/// `other` finds: nothing when the first entry of `other` that covers the location has
/// that format, else the error.
pub open spec fn location_check(
    other: Seq<ShaderInterfaceDefEntry>,
    format: Format,
    loc: u32,
) -> Option<ShaderInterfaceMismatchError> {
    if !is_covered(other, loc as int) {
        Some(ShaderInterfaceMismatchError::MissingElement { location: loc })
    } else if other[first_cover(other, loc as int)].format != format {
        Some(ShaderInterfaceMismatchError::FormatMismatch)
    } else {
        None
    }
}

/// The first error found checking the locations of `entry` from `loc` on, in increasing order.
pub open spec fn entry_check_from(
    other: Seq<ShaderInterfaceDefEntry>,
    entry: ShaderInterfaceDefEntry,
    loc: int,
) -> Option<ShaderInterfaceMismatchError>
    decreases entry.location.end - loc,
{
    if loc < entry.location.start || loc >= entry.location.end {
        None
    } else {
        match location_check(other, entry.format, loc as u32) {
            Some(e) => Some(e),
            None => entry_check_from(other, entry, loc + 1),
        }
    }
}

/// The first error found checking the entries of `entries` from index `i` on, in order.
pub open spec fn entries_check_from(
    entries: Seq<ShaderInterfaceDefEntry>,
    other: Seq<ShaderInterfaceDefEntry>,
    i: int,
) -> Option<ShaderInterfaceMismatchError>
    decreases entries.len() - i,
{
    if i < 0 || i >= entries.len() {
        None
    } else {
        match entry_check_from(other, entries[i], entries[i].location.start as int) {
            Some(e) => Some(e),
            None => entries_check_from(entries, other, i + 1),
        }
    }
}

/// The outcome of matching the interface made of `entries` against the interface `other`.
pub open spec fn interface_match(
    entries: Seq<ShaderInterfaceDefEntry>,
    other: Seq<ShaderInterfaceDefEntry>,
) -> Result<(), ShaderInterfaceMismatchError> {
    if entries.len() != other.len() {
        Err(ShaderInterfaceMismatchError::ElementsCountMismatch)
    } else {
        match entries_check_from(entries, other, 0) {
            Some(e) => Err(e),
            None => Ok(()),
        }
    }
}

/// Index of the first entry of `entries` that covers `loc`, if any.
fn find_cover(entries: &Vec<ShaderInterfaceDefEntry>, loc: u32) -> (r: Option<usize>)
    ensures
        match r {
            Some(j) => is_first_cover(entries@, loc as int, j as int),
            None => !is_covered(entries@, loc as int),
        },
{
    let mut j: usize = 0;
    while j < entries.len()
        invariant
            j <= entries.len(),
            forall|k: int| 0 <= k < j ==> !covers(#[trigger] entries@[k], loc as int),
        decreases entries.len() - j,
    {
        if loc >= entries[j].location.start && loc < entries[j].location.end {
            return Some(j);
        }
        j += 1;
    }
    None
}

/// Checks one location of an element of format `format` against `other`.
fn check_location(other: &Vec<ShaderInterfaceDefEntry>, format: Format, loc: u32) -> (r: Option<
    ShaderInterfaceMismatchError,
>)
    ensures
        r == location_check(other@, format, loc),
{
    match find_cover(other, loc) {
        None => Some(ShaderInterfaceMismatchError::MissingElement { location: loc }),
        Some(j) => {
            proof {
                let c = first_cover(other@, loc as int);
                assert(is_first_cover(other@, loc as int, c));
                if c < j {
                    assert(!covers(other@[c], loc as int));
                } else if j < c {
                    assert(!covers(other@[j as int], loc as int));
                }
            }
            if other[j].format != format {
                Some(ShaderInterfaceMismatchError::FormatMismatch)
            } else {
                None
            }
        },
    }
}

/// Checks every location of `entry` against `other`, in increasing order.
fn check_entry(other: &Vec<ShaderInterfaceDefEntry>, entry: &ShaderInterfaceDefEntry) -> (r: Option<
    ShaderInterfaceMismatchError,
>)
    ensures
        r == entry_check_from(other@, *entry, entry.location.start as int),
{
    let end = entry.location.end;
    let mut loc = entry.location.start;
    while loc < end
        invariant
            end == entry.location.end,
            entry.location.start <= loc,
            entry_check_from(other@, *entry, entry.location.start as int) == entry_check_from(
                other@,
                *entry,
                loc as int,
            ),
        decreases end - loc,
    {
        let found = check_location(other, entry.format, loc);
        if found.is_some() {
            return found;
        }
        loc += 1;
    }
    None
}

/// Matches the interface made of `entries` against the interface `other`.
///
/// Returns `Ok` if the two definitions match: they have as many elements, and for every
/// location of every element of `entries`, the first element of `other` that covers it has
/// the same format. Otherwise the first mismatch found, in the order of the elements of
/// `entries` and of their locations, is returned.
pub fn match_interfaces(
    entries: &Vec<ShaderInterfaceDefEntry>,
    other: &Vec<ShaderInterfaceDefEntry>,
) -> (r: Result<(), ShaderInterfaceMismatchError>)
    ensures
        r == interface_match(entries@, other@),
{
    if entries.len() != other.len() {
        return Err(ShaderInterfaceMismatchError::ElementsCountMismatch);
    }
    let mut i: usize = 0;
    while i < entries.len()
        invariant
            i <= entries.len(),
            entries.len() == other.len(),
            entries_check_from(entries@, other@, 0) == entries_check_from(entries@, other@, i as int),
        decreases entries.len() - i,
    {
        let found = check_entry(other, &entries[i]);
        match found {
            Some(e) => {
                return Err(e);
            },
            None => {},
        }
        i += 1;
    }
    Ok(())
}

/// No location covered by `entry` from `loc` on fails its check.
pub open spec fn entry_locations_ok(
    other: Seq<ShaderInterfaceDefEntry>,
    entry: ShaderInterfaceDefEntry,
    loc: int,
) -> bool {
    forall|l: u32|
        loc <= l && #[trigger] covers(entry, l as int) ==> location_check(other, entry.format, l)
            is None
}

proof fn lemma_entry_check_none(
    other: Seq<ShaderInterfaceDefEntry>,
    entry: ShaderInterfaceDefEntry,
    loc: int,
)
    requires
        entry.location.start <= loc,
    ensures
        entry_check_from(other, entry, loc) is None <==> entry_locations_ok(other, entry, loc),
    decreases entry.location.end - loc,
{
    if loc < entry.location.end {
        lemma_entry_check_none(other, entry, loc + 1);
        if entry_check_from(other, entry, loc) is None {
            assert forall|l: u32|
                loc <= l && #[trigger] covers(entry, l as int) implies location_check(
                other,
                entry.format,
                l,
            ) is None by {
                if l as int != loc {
                    assert(loc + 1 <= l);
                }
            }
        }
        if entry_locations_ok(other, entry, loc) {
            let l = loc as u32;
            assert(covers(entry, l as int));
        }
    }
}

proof fn lemma_entry_check_some(
    other: Seq<ShaderInterfaceDefEntry>,
    entry: ShaderInterfaceDefEntry,
    loc: int,
)
    requires
        entry.location.start <= loc,
        entry_check_from(other, entry, loc) is Some,
    ensures
        exists|l: u32|
            #[trigger] covers(entry, l as int) && location_check(other, entry.format, l)
                == entry_check_from(other, entry, loc),
    decreases entry.location.end - loc,
{
    if location_check(other, entry.format, loc as u32) is Some {
        assert(covers(entry, (loc as u32) as int));
    } else {
        lemma_entry_check_some(other, entry, loc + 1);
    }
}

/// No location of the entries of `entries` from index `i` on fails its check.
pub open spec fn entries_locations_ok(
    entries: Seq<ShaderInterfaceDefEntry>,
    other: Seq<ShaderInterfaceDefEntry>,
    i: int,
) -> bool {
    forall|k: int, l: u32|
        0 <= i <= k < entries.len() && #[trigger] covers(entries[k], l as int) ==> location_check(
            other,
            entries[k].format,
            l,
        ) is None
}

proof fn lemma_entries_check_none(
    entries: Seq<ShaderInterfaceDefEntry>,
    other: Seq<ShaderInterfaceDefEntry>,
    i: int,
)
    requires
        0 <= i,
    ensures
        entries_check_from(entries, other, i) is None <==> entries_locations_ok(entries, other, i),
    decreases entries.len() - i,
{
    if i < entries.len() {
        lemma_entries_check_none(entries, other, i + 1);
        lemma_entry_check_none(other, entries[i], entries[i].location.start as int);
        if entries_check_from(entries, other, i) is None {
            assert forall|k: int, l: u32|
                0 <= i <= k < entries.len() && #[trigger] covers(
                    entries[k],
                    l as int,
                ) implies location_check(other, entries[k].format, l) is None by {
                if k == i {
                    assert(entry_locations_ok(other, entries[i], entries[i].location.start as int));
                }
            }
        }
        if entries_locations_ok(entries, other, i) {
            assert forall|l: u32|
                entries[i].location.start <= l && #[trigger] covers(
                    entries[i],
                    l as int,
                ) implies location_check(other, entries[i].format, l) is None by {
                assert(covers(entries[i], l as int));
            }
            assert(entries_locations_ok(entries, other, i + 1)) by {
                assert forall|k: int, l: u32|
                    0 <= i + 1 <= k < entries.len() && #[trigger] covers(
                        entries[k],
                        l as int,
                    ) implies location_check(other, entries[k].format, l) is None by {
                    assert(covers(entries[k], l as int));
                }
            }
        }
    }
}

proof fn lemma_entries_check_some(
    entries: Seq<ShaderInterfaceDefEntry>,
    other: Seq<ShaderInterfaceDefEntry>,
    i: int,
)
    requires
        0 <= i,
        entries_check_from(entries, other, i) is Some,
    ensures
        exists|k: int, l: u32|
            0 <= k < entries.len() && #[trigger] covers(entries[k], l as int) && location_check(
                other,
                entries[k].format,
                l,
            ) == entries_check_from(entries, other, i),
    decreases entries.len() - i,
{
    let e = entry_check_from(other, entries[i], entries[i].location.start as int);
    if e is Some {
        lemma_entry_check_some(other, entries[i], entries[i].location.start as int);
        let l = choose|l: u32|
            #[trigger] covers(entries[i], l as int) && location_check(other, entries[i].format, l)
                == e;
        assert(covers(entries[i], l as int));
    } else {
        lemma_entries_check_some(entries, other, i + 1);
    }
}

/// Two interfaces match exactly when they have as many elements and, for every location of
/// every element of the first, the first element of the second that covers that location
/// exists and has the same format.
pub proof fn lemma_match_ok_iff(
    entries: Seq<ShaderInterfaceDefEntry>,
    other: Seq<ShaderInterfaceDefEntry>,
)
    ensures
        interface_match(entries, other) is Ok <==> {
            &&& entries.len() == other.len()
            &&& forall|i: int, loc: u32|
                0 <= i < entries.len() && #[trigger] covers(entries[i], loc as int) ==> {
                    &&& is_covered(other, loc as int)
                    &&& other[first_cover(other, loc as int)].format == entries[i].format
                }
        },
{
    lemma_entries_check_none(entries, other, 0);
    if entries.len() == other.len() && entries_check_from(entries, other, 0) is None {
        assert forall|i: int, loc: u32|
            0 <= i < entries.len() && #[trigger] covers(entries[i], loc as int) implies {
            &&& is_covered(other, loc as int)
            &&& other[first_cover(other, loc as int)].format == entries[i].format
        } by {
            assert(location_check(other, entries[i].format, loc) is None);
        }
    }
}

/// A mismatch is reported exactly when the interfaces differ: an element count mismatch
/// only when the numbers of elements differ, a missing element only at a location that an
/// element of the first interface covers and no element of the second does, and a format
/// mismatch only where the first element of the second interface that covers a location of
/// an element of the first has another format.
pub proof fn lemma_match_err_witness(
    entries: Seq<ShaderInterfaceDefEntry>,
    other: Seq<ShaderInterfaceDefEntry>,
)
    ensures
        interface_match(entries, other) == Err::<(), _>(
            ShaderInterfaceMismatchError::ElementsCountMismatch,
        ) <==> entries.len() != other.len(),
        interface_match(entries, other) matches Err(
            ShaderInterfaceMismatchError::MissingElement { location },
        ) ==> {
            &&& exists|i: int| 0 <= i < entries.len() && #[trigger] covers(entries[i], location as int)
            &&& !is_covered(other, location as int)
        },
        interface_match(entries, other) == Err::<(), _>(
            ShaderInterfaceMismatchError::FormatMismatch,
        ) ==> exists|i: int, loc: u32|
            0 <= i < entries.len() && #[trigger] covers(entries[i], loc as int) && is_covered(
                other,
                loc as int,
            ) && other[first_cover(other, loc as int)].format != entries[i].format,
{
    if entries.len() == other.len() && entries_check_from(entries, other, 0) is Some {
        lemma_entries_check_some(entries, other, 0);
        let (k, l) = choose|k: int, l: u32|
            0 <= k < entries.len() && #[trigger] covers(entries[k], l as int) && location_check(
                other,
                entries[k].format,
                l,
            ) == entries_check_from(entries, other, 0);
        assert(covers(entries[k], l as int));
        match location_check(other, entries[k].format, l) {
            Some(ShaderInterfaceMismatchError::MissingElement { location }) => {
                assert(location == l);
                assert(!is_covered(other, l as int));
                assert(0 <= k < entries.len() && covers(entries[k], location as int));
            },
            _ => {},
        }
    }
}

/// No location is covered by two entries of `entries`: the interface provides only one
/// entry per location.
pub open spec fn one_entry_per_location(entries: Seq<ShaderInterfaceDefEntry>) -> bool {
    forall|i: int, j: int, loc: int|
        0 <= i < entries.len() && 0 <= j < entries.len() && i != j && #[trigger] covers(
            entries[i],
            loc,
        ) ==> !#[trigger] covers(entries[j], loc)
}

/// An interface whose elements cover pairwise disjoint locations matches itself.
pub proof fn lemma_match_self(entries: Seq<ShaderInterfaceDefEntry>)
    requires
        one_entry_per_location(entries),
    ensures
        interface_match(entries, entries) == Ok::<(), ShaderInterfaceMismatchError>(()),
{
    assert forall|i: int, loc: u32|
        0 <= i < entries.len() && #[trigger] covers(entries[i], loc as int) implies {
        &&& is_covered(entries, loc as int)
        &&& entries[first_cover(entries, loc as int)].format == entries[i].format
    } by {
        assert(is_covered(entries, loc as int));
        assert(exists|j: int| is_first_cover(entries, loc as int, j)) by {
            lemma_first_cover_exists(entries, loc as int, i);
        }
        let c = first_cover(entries, loc as int);
        assert(covers(entries[c], loc as int));
        assert(c == i);
    }
    lemma_match_ok_iff(entries, entries);
}

/// When some entry covers `loc`, a first one does.
proof fn lemma_first_cover_exists(entries: Seq<ShaderInterfaceDefEntry>, loc: int, i: int)
    requires
        0 <= i < entries.len(),
        covers(entries[i], loc),
    ensures
        exists|j: int| is_first_cover(entries, loc, j),
    decreases i,
{
    if exists|k: int| 0 <= k < i && covers(#[trigger] entries[k], loc) {
        let k = choose|k: int| 0 <= k < i && covers(#[trigger] entries[k], loc);
        lemma_first_cover_exists(entries, loc, k);
    } else {
        assert(is_first_cover(entries, loc, i));
    }
}

/// At most one index is the first entry covering a location.
proof fn lemma_first_cover_unique(
    entries: Seq<ShaderInterfaceDefEntry>,
    loc: int,
    j1: int,
    j2: int,
)
    requires
        is_first_cover(entries, loc, j1),
        is_first_cover(entries, loc, j2),
    ensures
        j1 == j2,
{
    if j1 < j2 {
        assert(!covers(entries[j1], loc));
    } else if j2 < j1 {
        assert(!covers(entries[j2], loc));
    }
}

/// A covered location has a first covering entry, and `first_cover` names it.
proof fn lemma_first_cover_is_first(entries: Seq<ShaderInterfaceDefEntry>, loc: int)
    requires
        is_covered(entries, loc),
    ensures
        is_first_cover(entries, loc, first_cover(entries, loc)),
{
    let i = choose|i: int| 0 <= i < entries.len() && covers(#[trigger] entries[i], loc);
    lemma_first_cover_exists(entries, loc, i);
}

/// `a` and `b` hold entries with the same locations and formats at the same positions; only
/// their names may differ.
pub open spec fn same_but_names(a: Seq<ShaderInterfaceDefEntry>, b: Seq<ShaderInterfaceDefEntry>) -> bool {
    &&& a.len() == b.len()
    &&& forall|i: int|
        #![trigger a[i]]
        #![trigger b[i]]
        0 <= i < a.len() ==> a[i].location == b[i].location && a[i].format == b[i].format
}

proof fn lemma_location_check_ignores_names(
    b: Seq<ShaderInterfaceDefEntry>,
    b2: Seq<ShaderInterfaceDefEntry>,
    format: Format,
    loc: u32,
)
    requires
        same_but_names(b, b2),
    ensures
        location_check(b, format, loc) == location_check(b2, format, loc),
{
    let l = loc as int;
    assert forall|j: int| 0 <= j < b.len() implies covers(b[j], l) == covers(b2[j], l) by {
        assert(b[j].location == b2[j].location);
    }
    if is_covered(b, l) {
        let j = choose|j: int| 0 <= j < b.len() && covers(#[trigger] b[j], l);
        assert(covers(b2[j], l));
    }
    if is_covered(b2, l) {
        let j = choose|j: int| 0 <= j < b2.len() && covers(#[trigger] b2[j], l);
        assert(covers(b[j], l));
    }
    if is_covered(b, l) {
        lemma_first_cover_is_first(b, l);
        lemma_first_cover_is_first(b2, l);
        let c = first_cover(b, l);
        let c2 = first_cover(b2, l);
        assert(is_first_cover(b2, l, c)) by {
            assert(covers(b2[c], l));
            assert forall|k: int| 0 <= k < c implies !covers(#[trigger] b2[k], l) by {
                assert(!covers(b[k], l));
            }
        }
        lemma_first_cover_unique(b2, l, c, c2);
        assert(b[c].format == b2[c].format);
    }
}

proof fn lemma_entry_check_congruent(
    b: Seq<ShaderInterfaceDefEntry>,
    b2: Seq<ShaderInterfaceDefEntry>,
    e: ShaderInterfaceDefEntry,
    e2: ShaderInterfaceDefEntry,
    loc: int,
)
    requires
        e.location == e2.location,
        e.format == e2.format,
        forall|format: Format, l: u32| #[trigger]
            location_check(b, format, l) == location_check(b2, format, l),
    ensures
        entry_check_from(b, e, loc) == entry_check_from(b2, e2, loc),
    decreases e.location.end - loc,
{
    if e.location.start <= loc < e.location.end {
        assert(location_check(b, e.format, loc as u32) == location_check(b2, e.format, loc as u32));
        lemma_entry_check_congruent(b, b2, e, e2, loc + 1);
    }
}

proof fn lemma_entries_check_congruent(
    a: Seq<ShaderInterfaceDefEntry>,
    a2: Seq<ShaderInterfaceDefEntry>,
    b: Seq<ShaderInterfaceDefEntry>,
    b2: Seq<ShaderInterfaceDefEntry>,
    i: int,
)
    requires
        same_but_names(a, a2),
        forall|format: Format, l: u32| #[trigger]
            location_check(b, format, l) == location_check(b2, format, l),
    ensures
        entries_check_from(a, b, i) == entries_check_from(a2, b2, i),
    decreases a.len() - i,
{
    if 0 <= i < a.len() {
        assert(a[i].location == a2[i].location && a[i].format == a2[i].format);
        lemma_entry_check_congruent(b, b2, a[i], a2[i], a[i].location.start as int);
        lemma_entries_check_congruent(a, a2, b, b2, i + 1);
    }
}

/// Names of elements never change the outcome of matching: interfaces whose elements differ
/// only by their names match alike.
pub proof fn lemma_match_ignores_names(
    a: Seq<ShaderInterfaceDefEntry>,
    a2: Seq<ShaderInterfaceDefEntry>,
    b: Seq<ShaderInterfaceDefEntry>,
    b2: Seq<ShaderInterfaceDefEntry>,
)
    requires
        same_but_names(a, a2),
        same_but_names(b, b2),
    ensures
        interface_match(a, b) == interface_match(a2, b2),
{
    assert forall|format: Format, l: u32| #[trigger]
        location_check(b, format, l) == location_check(b2, format, l) by {
        lemma_location_check_ignores_names(b, b2, format, l);
    }
    lemma_entries_check_congruent(a, a2, b, b2, 0);
}

/// Each entry of `s` is an entry of `t` when they hold the same entries as multisets.
proof fn lemma_same_multiset_member(
    s: Seq<ShaderInterfaceDefEntry>,
    t: Seq<ShaderInterfaceDefEntry>,
    k: int,
) -> (j: int)
    requires
        s.to_multiset() == t.to_multiset(),
        0 <= k < s.len(),
    ensures
        0 <= j < t.len(),
        t[j] == s[k],
{
    broadcast use vstd::seq_lib::group_to_multiset_ensures;

    assert(s.contains(s[k]));
    assert(s.to_multiset().count(s[k]) > 0);
    assert(t.contains(s[k]));
    choose|j: int| 0 <= j < t.len() && t[j] == s[k]
}

/// Elements of the second interface are looked up by location, not by position: when it
/// provides only one entry per location, reordering its elements never changes the outcome.
pub proof fn lemma_match_second_reordered(
    a: Seq<ShaderInterfaceDefEntry>,
    b: Seq<ShaderInterfaceDefEntry>,
    b2: Seq<ShaderInterfaceDefEntry>,
)
    requires
        b.to_multiset() == b2.to_multiset(),
        one_entry_per_location(b),
    ensures
        interface_match(a, b) == interface_match(a, b2),
{
    broadcast use vstd::seq_lib::group_to_multiset_ensures;

    assert(b.len() == b2.len()) by {
        assert(b.len() == b.to_multiset().len());
        assert(b2.len() == b2.to_multiset().len());
    }
    assert forall|format: Format, loc: u32| #[trigger]
        location_check(b, format, loc) == location_check(b2, format, loc) by {
        let l = loc as int;
        if is_covered(b, l) {
            let j = choose|j: int| 0 <= j < b.len() && covers(#[trigger] b[j], l);
            let k = lemma_same_multiset_member(b, b2, j);
            assert(covers(b2[k], l));
        }
        if is_covered(b2, l) {
            let k = choose|k: int| 0 <= k < b2.len() && covers(#[trigger] b2[k], l);
            let j = lemma_same_multiset_member(b2, b, k);
            assert(covers(b[j], l));
        }
        if is_covered(b, l) {
            lemma_first_cover_is_first(b, l);
            lemma_first_cover_is_first(b2, l);
            let c = first_cover(b, l);
            let c2 = first_cover(b2, l);
            let j = lemma_same_multiset_member(b2, b, c2);
            assert(covers(b[j], l));
            assert(covers(b[c], l));
            if j != c {
                assert(!covers(b[j], l));
            }
        }
    }
    assert(same_but_names(a, a));
    lemma_entries_check_congruent(a, a, b, b2, 0);
}

/// Reordering the elements of the first interface keeps whether the interfaces match, and
/// whether their numbers of elements differ.
pub proof fn lemma_match_first_reordered(
    a: Seq<ShaderInterfaceDefEntry>,
    a2: Seq<ShaderInterfaceDefEntry>,
    b: Seq<ShaderInterfaceDefEntry>,
)
    requires
        a.to_multiset() == a2.to_multiset(),
    ensures
        (interface_match(a, b) is Ok) == (interface_match(a2, b) is Ok),
        (interface_match(a, b) == Err::<(), _>(
            ShaderInterfaceMismatchError::ElementsCountMismatch,
        )) == (interface_match(a2, b) == Err::<(), _>(
            ShaderInterfaceMismatchError::ElementsCountMismatch,
        )),
{
    broadcast use vstd::seq_lib::group_to_multiset_ensures;

    assert(a.len() == a2.len()) by {
        assert(a.len() == a.to_multiset().len());
        assert(a2.len() == a2.to_multiset().len());
    }
    lemma_match_ok_iff(a, b);
    lemma_match_ok_iff(a2, b);
    lemma_match_err_witness(a, b);
    lemma_match_err_witness(a2, b);
    if interface_match(a, b) is Ok {
        assert forall|i: int, loc: u32|
            0 <= i < a2.len() && #[trigger] covers(a2[i], loc as int) implies {
            &&& is_covered(b, loc as int)
            &&& b[first_cover(b, loc as int)].format == a2[i].format
        } by {
            let j = lemma_same_multiset_member(a2, a, i);
            assert(covers(a[j], loc as int));
        }
    }
    if interface_match(a2, b) is Ok {
        assert forall|i: int, loc: u32|
            0 <= i < a.len() && #[trigger] covers(a[i], loc as int) implies {
            &&& is_covered(b, loc as int)
            &&& b[first_cover(b, loc as int)].format == a[i].format
        } by {
            let j = lemma_same_multiset_member(a, a2, i);
            assert(covers(a2[j], loc as int));
        }
    }
}

/// Location `loc` of an element of format `format` passes against the interface `other`:
/// some element of `other` covers it, and the first one that does has that format.
pub open spec fn location_passes(
    other: Seq<ShaderInterfaceDefEntry>,
    format: Format,
    loc: int,
) -> bool {
    is_covered(other, loc) && other[first_cover(other, loc)].format == format
}

/// Location `m` of element `k` is checked before location `loc` of element `i`: elements are
/// taken in order, and the locations of one element in increasing order.
pub open spec fn checked_before(k: int, m: int, i: int, loc: int) -> bool {
    k < i || (k == i && m < loc)
}

proof fn lemma_location_check_passes(other: Seq<ShaderInterfaceDefEntry>, format: Format, loc: u32)
    ensures
        location_check(other, format, loc) is None <==> location_passes(other, format, loc as int),
        !is_covered(other, loc as int) ==> location_check(other, format, loc) == Some(
            ShaderInterfaceMismatchError::MissingElement { location: loc },
        ),
        is_covered(other, loc as int) && !location_passes(other, format, loc as int)
            ==> location_check(other, format, loc) == Some(
            ShaderInterfaceMismatchError::FormatMismatch,
        ),
{
}

proof fn lemma_entry_check_first_failure(
    other: Seq<ShaderInterfaceDefEntry>,
    entry: ShaderInterfaceDefEntry,
    from: int,
    loc: u32,
)
    requires
        entry.location.start <= from <= loc,
        covers(entry, loc as int),
        !location_passes(other, entry.format, loc as int),
        forall|m: u32|
            from <= m < loc ==> #[trigger] location_passes(other, entry.format, m as int),
    ensures
        entry_check_from(other, entry, from) == location_check(other, entry.format, loc),
    decreases loc - from,
{
    lemma_location_check_passes(other, entry.format, loc);
    if from < loc {
        let m = from as u32;
        assert(location_passes(other, entry.format, m as int));
        lemma_location_check_passes(other, entry.format, m);
        lemma_entry_check_first_failure(other, entry, from + 1, loc);
    }
}

proof fn lemma_entries_check_first_failure(
    entries: Seq<ShaderInterfaceDefEntry>,
    other: Seq<ShaderInterfaceDefEntry>,
    from: int,
    i: int,
    loc: u32,
)
    requires
        0 <= from <= i < entries.len(),
        covers(entries[i], loc as int),
        !location_passes(other, entries[i].format, loc as int),
        forall|k: int, m: u32|
            0 <= k < entries.len() && #[trigger] covers(entries[k], m as int) && checked_before(
                k,
                m as int,
                i,
                loc as int,
            ) ==> location_passes(other, entries[k].format, m as int),
    ensures
        entries_check_from(entries, other, from) == location_check(
            other,
            entries[i].format,
            loc,
        ),
    decreases i - from,
{
    if from < i {
        assert(entry_locations_ok(other, entries[from], entries[from].location.start as int)) by {
            assert forall|m: u32|
                entries[from].location.start <= m && #[trigger] covers(
                    entries[from],
                    m as int,
                ) implies location_check(other, entries[from].format, m) is None by {
                lemma_location_check_passes(other, entries[from].format, m);
                assert(checked_before(from, m as int, i, loc as int));
            }
        }
        lemma_entry_check_none(other, entries[from], entries[from].location.start as int);
        lemma_entries_check_first_failure(entries, other, from + 1, i, loc);
    } else {
        assert forall|m: u32|
            entries[i].location.start <= m < loc implies #[trigger] location_passes(
            other,
            entries[i].format,
            m as int,
        ) by {
            assert(covers(entries[i], m as int));
            assert(checked_before(i, m as int, i, loc as int));
        }
        lemma_entry_check_first_failure(
            other,
            entries[i],
            entries[i].location.start as int,
            loc,
        );
    }
}

/// With as many elements on both sides, the error reported is the one of the first location
/// that fails, in checking order: when location `loc` of element `i` of the first interface
/// fails and every location checked before it passes, matching reports `MissingElement`
/// at `loc` if no element of `other` covers it, and `FormatMismatch` otherwise.
pub proof fn lemma_match_first_failure(
    entries: Seq<ShaderInterfaceDefEntry>,
    other: Seq<ShaderInterfaceDefEntry>,
    i: int,
    loc: u32,
)
    requires
        entries.len() == other.len(),
        0 <= i < entries.len(),
        covers(entries[i], loc as int),
        !location_passes(other, entries[i].format, loc as int),
        forall|k: int, m: u32|
            0 <= k < entries.len() && #[trigger] covers(entries[k], m as int) && checked_before(
                k,
                m as int,
                i,
                loc as int,
            ) ==> location_passes(other, entries[k].format, m as int),
    ensures
        !is_covered(other, loc as int) ==> interface_match(entries, other) == Err::<(), _>(
            ShaderInterfaceMismatchError::MissingElement { location: loc },
        ),
        is_covered(other, loc as int) ==> interface_match(entries, other) == Err::<(), _>(
            ShaderInterfaceMismatchError::FormatMismatch,
        ),
{
    lemma_entries_check_first_failure(entries, other, 0, i, loc);
    lemma_location_check_passes(other, entries[i].format, loc);
}

/// Every error that matching reports, with as many elements on both sides, is the error of
/// a location that fails while every location checked before it passes.
pub proof fn lemma_match_err_is_first_failure(
    entries: Seq<ShaderInterfaceDefEntry>,
    other: Seq<ShaderInterfaceDefEntry>,
)
    requires
        entries.len() == other.len(),
        interface_match(entries, other) is Err,
    ensures
        exists|i: int, loc: u32|
            {
                &&& 0 <= i < entries.len()
                &&& #[trigger] covers(entries[i], loc as int)
                &&& !location_passes(other, entries[i].format, loc as int)
                &&& forall|k: int, m: u32|
                    0 <= k < entries.len() && #[trigger] covers(entries[k], m as int)
                        && checked_before(k, m as int, i, loc as int) ==> location_passes(
                        other,
                        entries[k].format,
                        m as int,
                    )
            },
{
    // The first failing element, then its first failing location.
    lemma_match_ok_iff(entries, other);
    let (k, m) = choose|k: int, m: u32|
        0 <= k < entries.len() && #[trigger] covers(entries[k], m as int) && !(is_covered(
            other,
            m as int,
        ) && other[first_cover(other, m as int)].format == entries[k].format);
    let i = lemma_least_bad_element(entries, other, k, m);
    let m_any = choose|l: u32|
        #[trigger] covers(entries[i], l as int) && !location_passes(
            other,
            entries[i].format,
            l as int,
        );
    let loc = lemma_least_bad_location(entries[i], other, m_any);
    assert forall|k: int, m: u32|
        0 <= k < entries.len() && #[trigger] covers(entries[k], m as int) && checked_before(
            k,
            m as int,
            i,
            loc as int,
        ) implies location_passes(other, entries[k].format, m as int) by {
        if k == i {
            assert(m < loc);
        }
    }
    assert(covers(entries[i], loc as int));
}

/// The least index of an element with a failing location.
proof fn lemma_least_bad_element(
    entries: Seq<ShaderInterfaceDefEntry>,
    other: Seq<ShaderInterfaceDefEntry>,
    k: int,
    m: u32,
) -> (i: int)
    requires
        0 <= k < entries.len(),
        covers(entries[k], m as int),
        !location_passes(other, entries[k].format, m as int),
    ensures
        0 <= i <= k,
        exists|l: u32|
            #[trigger] covers(entries[i], l as int) && !location_passes(
                other,
                entries[i].format,
                l as int,
            ),
        forall|j: int, l: u32|
            0 <= j < i && #[trigger] covers(entries[j], l as int) ==> location_passes(
                other,
                entries[j].format,
                l as int,
            ),
    decreases k,
{
    if exists|j: int, l: u32|
        0 <= j < k && #[trigger] covers(entries[j], l as int) && !location_passes(
            other,
            entries[j].format,
            l as int,
        ) {
        let (j, l) = choose|j: int, l: u32|
            0 <= j < k && #[trigger] covers(entries[j], l as int) && !location_passes(
                other,
                entries[j].format,
                l as int,
            );
        lemma_least_bad_element(entries, other, j, l)
    } else {
        assert(covers(entries[k], m as int));
        k
    }
}

/// The least failing location of an element with a failing location.
proof fn lemma_least_bad_location(
    entry: ShaderInterfaceDefEntry,
    other: Seq<ShaderInterfaceDefEntry>,
    m: u32,
) -> (loc: u32)
    requires
        covers(entry, m as int),
        !location_passes(other, entry.format, m as int),
    ensures
        loc <= m,
        covers(entry, loc as int),
        !location_passes(other, entry.format, loc as int),
        forall|l: u32|
            #[trigger] covers(entry, l as int) && l < loc ==> location_passes(
                other,
                entry.format,
                l as int,
            ),
    decreases m,
{
    if exists|l: u32|
        #[trigger] covers(entry, l as int) && l < m && !location_passes(
            other,
            entry.format,
            l as int,
        ) {
        let l = choose|l: u32|
            #[trigger] covers(entry, l as int) && l < m && !location_passes(
                other,
                entry.format,
                l as int,
            );
        lemma_least_bad_location(entry, other, l)
    } else {
        m
    }
}

} // verus!
