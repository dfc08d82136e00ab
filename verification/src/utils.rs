//! Errors and small numeric helpers shared by the whole crate.

use vstd::prelude::*;

verus! {

/// Why a draw request was abandoned.
#[derive(Clone, Copy, Debug, PartialEq, Eq, Structural)]
pub enum ErrorKind {
    /// The scene description is malformed.
    ConfigurationInvalid,
    /// A resolved box or outline is degenerate or leaves the coordinate range.
    GeometryInvalid,
    /// A pixel buffer of the requested size cannot be created.
    ResourceInitFailure,
    /// The buffer of a blur or shadow cannot be created.
    EffectFailure,
    /// A node kind that has no rendering yet was drawn.
    UnimplementedVariant,
}

/// The error of every fallible operation of the crate.
#[derive(Debug)]
pub struct AppError {
    pub kind: ErrorKind,
    pub message: String,
}

pub type AppResult<T = ()> = Result<T, AppError>;

impl AppError {
    /// An error of the given kind with the given text.
    pub fn new(kind: ErrorKind, msg: &str) -> (r: AppError)
        ensures
            r.kind == kind,
            r.message@ == msg@,
    {
        AppError { kind, message: msg.to_owned() }
    }

    /// The text of the error, as a diagnostic would print it.
    pub fn to_text(&self) -> (r: String)
        ensures
            r@ == self.message@,
    {
        self.message.clone()
    }
}

/// What can go wrong while a scene is resolved or painted: each fault has
/// its kind, and a text that names the node and the field at fault.
#[derive(Clone, Copy, Debug, PartialEq, Eq, Structural)]
pub enum Fault {
    /// The padding of a container is larger than its box.
    PaddingTooLarge,
    /// The outline of a container leaves the coordinate range.
    OutlineOutOfRange,
    /// The silhouette of a box shadow leaves the coordinate range.
    ShadowOutOfRange,
    /// A gradient is to fill a box without width or height.
    GradientOnEmptyBox,
    /// The stroke of a line leaves the coordinate range.
    LineOutOfRange,
    /// A text was not shaped before it was drawn.
    TextNotShaped,
    /// The rows of a text leave the coordinate range.
    TextOutOfRange,
    /// The rows of a resolved text name glyphs that are not there.
    RowsDoNotFit,
    /// An arc was drawn.
    ArcNotImplemented,
    /// A buffer without width or height, or beyond the limit, was asked for.
    BufferSize,
    /// A buffer was merged at an offset beyond the pixel range.
    MergeOutOfRange,
    /// A drop shadow has no area to be cast into.
    ShadowArea,
    /// The buffer of a drop shadow cannot be made.
    ShadowBuffer,
    /// The image cannot be encoded.
    ExportFailed,
}

impl Fault {
    /// The kind of error that the fault is reported as.
    pub open spec fn spec_kind(&self) -> ErrorKind {
        match self {
            Fault::PaddingTooLarge => ErrorKind::GeometryInvalid,
            Fault::OutlineOutOfRange => ErrorKind::GeometryInvalid,
            Fault::ShadowOutOfRange => ErrorKind::GeometryInvalid,
            Fault::GradientOnEmptyBox => ErrorKind::GeometryInvalid,
            Fault::LineOutOfRange => ErrorKind::GeometryInvalid,
            Fault::TextNotShaped => ErrorKind::ConfigurationInvalid,
            Fault::TextOutOfRange => ErrorKind::GeometryInvalid,
            Fault::RowsDoNotFit => ErrorKind::ConfigurationInvalid,
            Fault::ArcNotImplemented => ErrorKind::UnimplementedVariant,
            Fault::BufferSize => ErrorKind::ResourceInitFailure,
            Fault::MergeOutOfRange => ErrorKind::GeometryInvalid,
            Fault::ShadowArea => ErrorKind::EffectFailure,
            Fault::ShadowBuffer => ErrorKind::EffectFailure,
            Fault::ExportFailed => ErrorKind::ResourceInitFailure,
        }
    }

    /// The text that the fault is reported with: the node kind, the field,
    /// and what is wrong with it.
    #[verifier::opaque]
    pub open spec fn spec_text(&self) -> Seq<char> {
        match self {
            Fault::PaddingTooLarge => "container.padding: the insets do not fit the box"@,
            Fault::OutlineOutOfRange => "container.size: the outline leaves the coordinate range"@,
            Fault::ShadowOutOfRange => "container.shadow: the silhouette leaves the coordinate range"@,
            Fault::GradientOnEmptyBox => "container.color: a gradient needs a box with width and height"@,
            Fault::LineOutOfRange => "line.to: the stroke leaves the coordinate range"@,
            Fault::TextNotShaped => "text.font: the content was not shaped"@,
            Fault::TextOutOfRange => "text.position: the rows leave the coordinate range"@,
            Fault::RowsDoNotFit => "text.content: the rows do not fit the shaped glyphs"@,
            Fault::ArcNotImplemented => "arc: drawing is not implemented"@,
            Fault::BufferSize => "buffer.size: a buffer needs a width and a height within the limit"@,
            Fault::MergeOutOfRange => "merge.offset: the source leaves the pixel range"@,
            Fault::ShadowArea => "drop shadow.offset: there is no area to cast into"@,
            Fault::ShadowBuffer => "drop shadow.blur: the buffer of the shadow cannot be made"@,
            Fault::ExportFailed => "canvas.pixmap: the image cannot be encoded"@,
        }
    }

    /// The error that reports the fault.
    pub fn error(self) -> (r: AppError)
        ensures
            r.reports(self),
    {
        reveal(Fault::spec_text);
        match self {
            Fault::PaddingTooLarge => AppError::new(
                ErrorKind::GeometryInvalid,
                "container.padding: the insets do not fit the box",
            ),
            Fault::OutlineOutOfRange => AppError::new(
                ErrorKind::GeometryInvalid,
                "container.size: the outline leaves the coordinate range",
            ),
            Fault::ShadowOutOfRange => AppError::new(
                ErrorKind::GeometryInvalid,
                "container.shadow: the silhouette leaves the coordinate range",
            ),
            Fault::GradientOnEmptyBox => AppError::new(
                ErrorKind::GeometryInvalid,
                "container.color: a gradient needs a box with width and height",
            ),
            Fault::LineOutOfRange => AppError::new(
                ErrorKind::GeometryInvalid,
                "line.to: the stroke leaves the coordinate range",
            ),
            Fault::TextNotShaped => AppError::new(
                ErrorKind::ConfigurationInvalid,
                "text.font: the content was not shaped",
            ),
            Fault::TextOutOfRange => AppError::new(
                ErrorKind::GeometryInvalid,
                "text.position: the rows leave the coordinate range",
            ),
            Fault::RowsDoNotFit => AppError::new(
                ErrorKind::ConfigurationInvalid,
                "text.content: the rows do not fit the shaped glyphs",
            ),
            Fault::ArcNotImplemented => AppError::new(
                ErrorKind::UnimplementedVariant,
                "arc: drawing is not implemented",
            ),
            Fault::BufferSize => AppError::new(
                ErrorKind::ResourceInitFailure,
                "buffer.size: a buffer needs a width and a height within the limit",
            ),
            Fault::MergeOutOfRange => AppError::new(
                ErrorKind::GeometryInvalid,
                "merge.offset: the source leaves the pixel range",
            ),
            Fault::ShadowArea => AppError::new(
                ErrorKind::EffectFailure,
                "drop shadow.offset: there is no area to cast into",
            ),
            Fault::ShadowBuffer => AppError::new(
                ErrorKind::EffectFailure,
                "drop shadow.blur: the buffer of the shadow cannot be made",
            ),
            Fault::ExportFailed => AppError::new(
                ErrorKind::ResourceInitFailure,
                "canvas.pixmap: the image cannot be encoded",
            ),
        }
    }
}

impl AppError {
    /// Whether the error reports `fault`: it has the kind of the fault and
    /// carries its text.
    pub open spec fn reports(&self, fault: Fault) -> bool {
        self.kind == fault.spec_kind() && self.message@ == fault.spec_text()
    }
}

/// An error about a malformed scene description, carrying `msg`.
pub fn make_error(msg: &str) -> (r: AppError)
    ensures
        r.kind == ErrorKind::ConfigurationInvalid,
        r.message@ == msg@,
{
    AppError::new(ErrorKind::ConfigurationInvalid, msg)
}

/// Turns any printable error into an [`AppError`] whose message is the
/// printed form of `e`.
pub fn error_mapper<E: core::fmt::Display>(e: E) -> (r: AppError)
    ensures
        r.kind == ErrorKind::ConfigurationInvalid,
        vstd::string::to_string_from_display_ensures::<E>(&e, r.message),
{
    let text = e.to_string();
    AppError { kind: ErrorKind::ConfigurationInvalid, message: text }
}

/// The least element of a sequence of integers.
pub open spec fn seq_min(s: Seq<i64>) -> i64
    recommends
        s.len() > 0,
    decreases s.len(),
{
    if s.len() <= 1 {
        s[0]
    } else {
        let rest = seq_min(s.drop_last());
        if s.last() < rest {
            s.last()
        } else {
            rest
        }
    }
}

/// The greatest element of a sequence of integers.
pub open spec fn seq_max(s: Seq<i64>) -> i64
    recommends
        s.len() > 0,
    decreases s.len(),
{
    if s.len() <= 1 {
        s[0]
    } else {
        let rest = seq_max(s.drop_last());
        if s.last() > rest {
            s.last()
        } else {
            rest
        }
    }
}

/// `seq_min` is a member of the sequence and bounds every member from below.
pub proof fn lemma_seq_min_is_least(s: Seq<i64>)
    requires
        s.len() > 0,
    ensures
        s.contains(seq_min(s)),
        forall|i: int| 0 <= i < s.len() ==> seq_min(s) <= #[trigger] s[i],
    decreases s.len(),
{
    if s.len() <= 1 {
        assert(s[0] == seq_min(s));
    } else {
        let front = s.drop_last();
        lemma_seq_min_is_least(front);
        let k = choose|k: int| 0 <= k < front.len() && front[k] == seq_min(front);
        assert(s[k] == front[k]);
        assert(s[s.len() - 1] == s.last());
        assert forall|i: int| 0 <= i < s.len() implies seq_min(s) <= #[trigger] s[i] by {
            if i < front.len() {
                assert(front[i] == s[i]);
            }
        }
    }
}

/// `seq_max` is a member of the sequence and bounds every member from above.
pub proof fn lemma_seq_max_is_greatest(s: Seq<i64>)
    requires
        s.len() > 0,
    ensures
        s.contains(seq_max(s)),
        forall|i: int| 0 <= i < s.len() ==> seq_max(s) >= #[trigger] s[i],
    decreases s.len(),
{
    if s.len() <= 1 {
        assert(s[0] == seq_max(s));
    } else {
        let front = s.drop_last();
        lemma_seq_max_is_greatest(front);
        let k = choose|k: int| 0 <= k < front.len() && front[k] == seq_max(front);
        assert(s[k] == front[k]);
        assert(s[s.len() - 1] == s.last());
        assert forall|i: int| 0 <= i < s.len() implies seq_max(s) >= #[trigger] s[i] by {
            if i < front.len() {
                assert(front[i] == s[i]);
            }
        }
    }
}

/// The least of `nums`, which must not be empty.
pub fn min(nums: &[i64]) -> (r: i64)
    requires
        nums@.len() > 0,
    ensures
        r == seq_min(nums@),
{
    let mut v: i64 = nums[0];
    let mut i: usize = 1;
    assert(nums@.subrange(0, 1).len() == 1);
    assert(nums@.subrange(0, 1)[0] == nums@[0]);
    while i < nums.len()
        invariant
            1 <= i <= nums@.len(),
            v == seq_min(nums@.subrange(0, i as int)),
        decreases nums@.len() - i,
    {
        let ghost taken = nums@.subrange(0, i as int + 1);
        assert(taken.drop_last() =~= nums@.subrange(0, i as int));
        assert(taken.last() == nums@[i as int]);
        if nums[i] < v {
            v = nums[i];
        }
        i = i + 1;
    }
    assert(nums@.subrange(0, i as int) =~= nums@);
    v
}

/// The greatest of `nums`, which must not be empty.
pub fn max(nums: &[i64]) -> (r: i64)
    requires
        nums@.len() > 0,
    ensures
        r == seq_max(nums@),
{
    let mut v: i64 = nums[0];
    let mut i: usize = 1;
    assert(nums@.subrange(0, 1).len() == 1);
    assert(nums@.subrange(0, 1)[0] == nums@[0]);
    while i < nums.len()
        invariant
            1 <= i <= nums@.len(),
            v == seq_max(nums@.subrange(0, i as int)),
        decreases nums@.len() - i,
    {
        let ghost taken = nums@.subrange(0, i as int + 1);
        assert(taken.drop_last() =~= nums@.subrange(0, i as int));
        assert(taken.last() == nums@[i as int]);
        if nums[i] > v {
            v = nums[i];
        }
        i = i + 1;
    }
    assert(nums@.subrange(0, i as int) =~= nums@);
    v
}

} // verus!
