//! The choice of a device and of the surface that frames are shown on.

use vstd::prelude::*;

use crate::text::chars_of;

verus! {

/// The number by which Intel's devices are known.
pub const INTEL_VENDOR: u32 = 0x8086;

/// What is known of a device.
#[derive(Debug)]
pub struct AdapterFacts {
    pub vulkan: bool,
    pub vendor: u32,
    pub name: String,
    pub surface_supported: bool,
}

/// Why there is no frame to draw on.
#[derive(Clone, Copy, Debug, PartialEq, Eq, Structural)]
pub enum SurfaceFailure {
    Lost,
    Outdated,
    Timeout,
    OutOfMemory,
    Other,
}

/// What is done where there is no frame to draw on.
#[derive(Clone, Copy, Debug, PartialEq, Eq, Structural)]
pub enum SurfaceResponse {
    /// The surface is set up again.
    Reconfigure,
    /// There is another frame to come.
    SkipFrame,
    /// The program cannot go on.
    GiveUp,
}

/// The number of a character, after capital letters of ASCII became small ones.
pub open spec fn small_code(c: char) -> int {
    if 'A' <= c && c <= 'Z' {
        c as int + 32
    } else {
        c as int
    }
}

/// Whether `part` stands in `text` from a place on, but for capitals of ASCII.
pub open spec fn stands_at(text: Seq<char>, part: Seq<char>, at: int) -> bool {
    &&& 0 <= at <= text.len() - part.len()
    &&& forall|j: int| 0 <= j < part.len() ==> small_code(#[trigger] text[at + j]) == part[j] as int
}

/// Whether `part` stands somewhere in `text`, but for capitals of ASCII.
pub open spec fn occurs_in(text: Seq<char>, part: Seq<char>) -> bool {
    exists|at: int| stands_at(text, part, at)
}

/// Whether `i` is the place of the first of `flags` that is set.
pub open spec fn is_first_set(flags: Seq<bool>, i: int) -> bool {
    &&& 0 <= i < flags.len()
    &&& flags[i]
    &&& forall|j: int| 0 <= j < i ==> !flags[j]
}

impl AdapterFacts {
    /// Whether this is a device of Intel's that runs Vulkan and can show frames on
    /// the surface.
    pub open spec fn suits_vsync(self) -> bool {
        &&& self.vulkan
        &&& self.vendor == INTEL_VENDOR || occurs_in(self.name@, "intel"@)
        &&& self.surface_supported
    }

    /// Whether this is a device of Intel's that runs Vulkan and can show frames on
    /// the surface.
    pub fn is_intel_vulkan(&self) -> (is: bool)
        ensures
            is == self.suits_vsync(),
    {
        let is_intel = self.vendor == INTEL_VENDOR || contains_ignoring_case(
            self.name.as_str(),
            "intel",
        );
        self.vulkan && is_intel && self.surface_supported
    }
}

/// The number of a character, after capital letters of ASCII became small ones.
fn lower_code(c: char) -> (code: u32)
    ensures
        code == small_code(c),
{
    if 'A' <= c && c <= 'Z' {
        c as u32 + 32
    } else {
        c as u32
    }
}

/// The number of a character.
fn code_of(c: char) -> (code: u32)
    ensures
        code == c as int,
{
    c as u32
}

/// Whether `part` stands somewhere in `text`, but for capitals of ASCII.
pub fn contains_ignoring_case(text: &str, part: &str) -> (contains: bool)
    ensures
        contains == occurs_in(text@, part@),
{
    let chars = chars_of(text);
    let wanted = chars_of(part);
    if wanted.len() == 0 {
        assert(stands_at(text@, part@, 0));
        return true;
    }
    if wanted.len() > chars.len() {
        return false;
    }
    for at in 0..chars.len() - wanted.len() + 1
        invariant
            chars@ == text@,
            wanted@ == part@,
            wanted.len() <= chars.len(),
            forall|i: int| 0 <= i < at ==> !stands_at(text@, part@, i),
    {
        let mut equal = true;
        for j in 0..wanted.len()
            invariant
                chars@ == text@,
                wanted@ == part@,
                at + wanted.len() <= chars.len(),
                equal ==> forall|k: int|
                    0 <= k < j ==> small_code(#[trigger] text@[at + k]) == part@[k] as int,
                !equal ==> !stands_at(text@, part@, at as int),
        {
            if lower_code(chars[at + j]) != code_of(wanted[j]) {
                equal = false;
            }
        }
        if equal {
            assert(stands_at(text@, part@, at as int));
            return true;
        }
    }
    false
}

/// The first of `flags` that is set.
pub fn first_set(flags: &Vec<bool>) -> (first: Option<usize>)
    ensures
        match first {
            Some(i) => is_first_set(flags@, i as int),
            None => forall|i: int| 0 <= i < flags.len() ==> !flags[i],
        },
{
    for i in 0..flags.len()
        invariant
            forall|j: int| 0 <= j < i ==> !flags[j],
    {
        if flags[i] {
            return Some(i);
        }
    }
    None
}

/// The first device that suits a steady frame rate.
pub fn choose_vsync_adapter(adapters: &Vec<AdapterFacts>) -> (chosen: Option<usize>)
    ensures
        match chosen {
            Some(i) => i < adapters.len() && adapters[i as int].suits_vsync() && forall|j: int|
                0 <= j < i ==> !(#[trigger] adapters[j]).suits_vsync(),
            None => forall|j: int|
                0 <= j < adapters.len() ==> !(#[trigger] adapters[j]).suits_vsync(),
        },
{
    for i in 0..adapters.len()
        invariant
            forall|j: int| 0 <= j < i ==> !(#[trigger] adapters[j]).suits_vsync(),
    {
        if adapters[i].is_intel_vulkan() {
            return Some(i);
        }
    }
    None
}

/// Whether, after no device was found, one is looked for among the usual backends:
/// a backend was named from outside, and nothing insists on it.
pub fn falls_back(perfect_vsync: bool, backend_named: bool, strict: bool) -> (falls: bool)
    ensures
        falls == (backend_named && !strict && !perfect_vsync),
{
    !perfect_vsync && backend_named && !strict
}

/// The surface format to use, of formats of which it is known whether they are sRGB:
/// the first that is, or else the first.
pub fn choose_format(srgb: &Vec<bool>) -> (chosen: usize)
    requires
        srgb.len() > 0,
    ensures
        is_first_set(srgb@, chosen as int) || (chosen == 0 && forall|i: int|
            0 <= i < srgb.len() ==> !srgb[i]),
{
    match first_set(srgb) {
        Some(i) => i,
        None => 0,
    }
}

/// The present mode to use, of modes of which it is known whether they are FIFO: the
/// first that is, or else the first. A steady frame rate needs one that is.
pub fn choose_present_mode(fifo: &Vec<bool>, perfect_vsync: bool) -> (chosen: Option<usize>)
    requires
        !perfect_vsync ==> fifo.len() > 0,
    ensures
        match chosen {
            Some(i) => is_first_set(fifo@, i as int) || (!perfect_vsync && i == 0 && forall|j: int|
                0 <= j < fifo.len() ==> !fifo[j]),
            None => perfect_vsync && forall|j: int| 0 <= j < fifo.len() ==> !fifo[j],
        },
{
    match first_set(fifo) {
        Some(i) => Some(i),
        None => if perfect_vsync {
            None
        } else {
            Some(0)
        },
    }
}

/// The extent of the surface for a window: at least one pixel each way.
pub fn surface_extent(width: u32, height: u32) -> (extent: (u32, u32))
    ensures
        extent.0 == if width == 0 {
            1
        } else {
            width
        },
        extent.1 == if height == 0 {
            1
        } else {
            height
        },
{
    (width.max(1), height.max(1))
}

/// The extent of the surface after the window's size changed, or none for a window
/// without an area, whose surface stays as it is.
pub fn resized_extent(width: u32, height: u32) -> (extent: Option<(u32, u32)>)
    ensures
        extent == if width == 0 || height == 0 {
            None
        } else {
            Some((width, height))
        },
{
    if width == 0 || height == 0 {
        None
    } else {
        Some((width, height))
    }
}

/// What is done where there is no frame to draw on.
pub fn surface_response(failure: SurfaceFailure) -> (response: SurfaceResponse)
    ensures
        response is Reconfigure <==> failure is Lost || failure is Outdated,
        response is SkipFrame <==> failure is Timeout || failure is Other,
        response is GiveUp <==> failure is OutOfMemory,
{
    match failure {
        SurfaceFailure::Lost => SurfaceResponse::Reconfigure,
        SurfaceFailure::Outdated => SurfaceResponse::Reconfigure,
        SurfaceFailure::Timeout => SurfaceResponse::SkipFrame,
        SurfaceFailure::OutOfMemory => SurfaceResponse::GiveUp,
        SurfaceFailure::Other => SurfaceResponse::SkipFrame,
    }
}

/// A device suits a steady frame rate if it runs Vulkan, can show frames on the
/// surface, and is of Intel's by its number or by its name.
pub proof fn intel_is_known_by_number_or_name(adapter: AdapterFacts)
    ensures
        adapter.suits_vsync() ==> adapter.vulkan && adapter.surface_supported,
        adapter.vulkan && adapter.surface_supported && adapter.vendor == 0x8086
            ==> adapter.suits_vsync(),
        adapter.vulkan && adapter.surface_supported && adapter.vendor != 0x8086 ==> (
        adapter.suits_vsync() <==> occurs_in(adapter.name@, "intel"@)),
{
}

/// Whether two texts are the same but for capitals of ASCII in the first.
pub open spec fn same_but_for_capitals(text: Seq<char>, small: Seq<char>) -> bool {
    &&& text.len() == small.len()
    &&& forall|i: int| #![trigger text[i]]
        0 <= i < text.len() ==> (text[i] == small[i] && !(65 <= text[i] as int <= 90)) || (65
            <= text[i] as int <= 90 && text[i] as int + 32 == small[i] as int)
}

/// A part occurs in a text exactly where it stands somewhere in it, with anything
/// before and behind it, and with capitals of ASCII for small letters.
pub proof fn parts_occur_whatever_their_capitals(text: Seq<char>, part: Seq<char>)
    ensures
        occurs_in(text, part) <==> exists|at: int|
            0 <= at && at + part.len() <= text.len() && #[trigger] same_but_for_capitals(
                text.subrange(at, at + part.len()),
                part,
            ),
{
    if occurs_in(text, part) {
        let at = choose|at: int| stands_at(text, part, at);
        let found = text.subrange(at, at + part.len());
        assert forall|i: int| #![trigger found[i]] 0 <= i < found.len() implies (found[i] == part[i]
            && !(65 <= found[i] as int <= 90)) || (65 <= found[i] as int <= 90 && found[i] as int
            + 32 == part[i] as int) by {
            assert(found[i] == text[at + i]);
        }
        assert(same_but_for_capitals(found, part));
    }
    if exists|at: int|
        0 <= at && at + part.len() <= text.len() && #[trigger] same_but_for_capitals(
            text.subrange(at, at + part.len()),
            part,
        ) {
        let at = choose|at: int|
            0 <= at && at + part.len() <= text.len() && #[trigger] same_but_for_capitals(
                text.subrange(at, at + part.len()),
                part,
            );
        let found = text.subrange(at, at + part.len());
        assert forall|j: int| 0 <= j < part.len() implies small_code(#[trigger] text[at + j])
            == part[j] as int by {
            assert(found[j] == text[at + j]);
        }
        assert(stands_at(text, part, at));
    }
}

/// The first flag that is set is set, and none before it is; there is only one.
pub proof fn first_flag_is_the_only_first(flags: Seq<bool>, i: int, j: int)
    requires
        is_first_set(flags, i),
    ensures
        0 <= i < flags.len() && flags[i],
        0 <= j < i ==> !flags[j],
        is_first_set(flags, j) ==> i == j,
{
}

} // verus!
