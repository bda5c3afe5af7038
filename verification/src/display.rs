//! The brain's touchscreen UI model: its pages, the autonomous route
//! picker grid, and touch input.
use vstd::prelude::*;

verus! {

/// The page shown on the brain screen.
#[derive(Debug, Copy, Clone, PartialEq, Eq, Structural)]
pub enum SelectedPage {
    Autons,
    Odometry,
}

impl Default for SelectedPage {
    fn default() -> (r: Self)
        ensures
            r == SelectedPage::Autons,
    {
        SelectedPage::Autons
    }
}

impl SelectedPage {
    /// The number of pages.
    pub const COUNT: usize = 2;

    /// The page with the given index, in declaration order.
    pub fn from_repr(i: usize) -> (r: Option<SelectedPage>)
        ensures
            i == 0 ==> r == Some(SelectedPage::Autons),
            i == 1 ==> r == Some(SelectedPage::Odometry),
            i >= 2 ==> r is None,
    {
        if i == 0 {
            Some(SelectedPage::Autons)
        } else if i == 1 {
            Some(SelectedPage::Odometry)
        } else {
            None
        }
    }

    /// All pages, in declaration order.
    pub fn variants() -> (r: [SelectedPage; 2])
        ensures
            r@ == seq![SelectedPage::Autons, SelectedPage::Odometry],
    {
        let r = [SelectedPage::Autons, SelectedPage::Odometry];
        assert(r@ =~= seq![SelectedPage::Autons, SelectedPage::Odometry]);
        r
    }

    /// The label of the page on its selector button.
    pub fn name(&self) -> (r: &'static str)
        ensures
            *self == SelectedPage::Autons ==> r@ == "Autons"@,
            *self == SelectedPage::Odometry ==> r@ == "Odometry"@,
    {
        match self {
            SelectedPage::Autons => "Autons",
            SelectedPage::Odometry => "Odometry",
        }
    }
}

/// The autonomous routes to pick from and the one picked.
#[derive(Debug, Clone)]
pub struct AutonsState<R, const N: usize> {
    pub routes: Option<[R; N]>,
    pub selection: usize,
}

impl<R, const N: usize> Default for AutonsState<R, N> {
    fn default() -> (r: Self)
        ensures
            r.routes is None,
            r.selection == 0,
    {
        Self { routes: None, selection: 0 }
    }
}

impl<R, const N: usize> AutonsState<R, N> {
    /// Picks route `i` when the button of grid cell `i` is pressed; cells
    /// past the last route pick nothing.
    pub fn select(&mut self, i: usize)
        ensures
            final(self).routes == old(self).routes,
            i < N ==> final(self).selection == i,
            i >= N ==> final(self).selection == old(self).selection,
    {
        if i < N {
            self.selection = i;
        }
    }
}

/// Whether `c` is the fewest columns with `2 * c * c >= autons`: the ceiling of the
/// square root of half the number of routes.
pub open spec fn is_column_count(autons: nat, c: nat) -> bool {
    &&& 2 * c * c >= autons
    &&& c == 0 || 2 * (c - 1) * (c - 1) < autons
}

/// The number of columns of the route picker grid, `ceil(sqrt(autons / 2))`.
pub fn calculate_cols(autons: usize) -> (c: usize)
    ensures
        is_column_count(autons as nat, c as nat),
{
    let n = autons as u128;
    let mut lo: u128 = 0;
    let mut hi: u128 = 0x1_0000_0000;
    assert(2 * hi * hi >= n) by (nonlinear_arith)
        requires
            hi == 0x1_0000_0000,
            n <= 0xffff_ffff_ffff_ffff,
    ;
    while lo < hi
        invariant
            lo <= hi,
            hi <= 0x1_0000_0000,
            n == autons,
            n <= 0xffff_ffff_ffff_ffff,
            2 * hi * hi >= n,
            lo == 0 || 2 * (lo - 1) * (lo - 1) < n,
        decreases hi - lo,
    {
        let mid = lo + (hi - lo) / 2;
        assert(mid * mid <= 0x1_0000_0000 * 0x1_0000_0000) by (nonlinear_arith)
            requires
                mid <= 0x1_0000_0000,
        ;
        let sq = mid * mid;
        assert(2 * mid * mid == 2 * sq) by (nonlinear_arith)
            requires
                sq == mid * mid,
        ;
        if 2 * sq >= n {
            hi = mid;
        } else {
            lo = mid + 1;
        }
    }
    assert(lo <= 0xffff_ffff) by (nonlinear_arith)
        requires
            lo <= 0x1_0000_0000,
            lo == 0 || 2 * (lo - 1) * (lo - 1) < n,
            n <= 0xffff_ffff_ffff_ffff,
    ;
    lo as usize
}

/// `[0, 1, .., N - 1]`.
pub fn enumerate_array<const N: usize>() -> (arr: [usize; N])
    ensures
        forall|i: int| 0 <= i < N ==> arr@[i] == i,
{
    let mut arr = [0usize; N];
    let mut i: usize = 0;
    while i < N
        invariant
            i <= N,
            arr@.len() == N,
            forall|j: int| 0 <= j < i ==> arr@[j] == j,
        decreases N - i,
    {
        arr[i] = i;
        i = i + 1;
    }
    arr
}

/// The most routes the picker grid shows.
pub const MAX_AUTONS: usize = 18;
/// The most columns of the picker grid.
pub const MAX_COLS: usize = 3;
/// The most rows of the picker grid.
pub const MAX_ROWS: usize = 6;

/// The shape of the route picker grid for `autons` routes: its columns and
/// rows. Cell `(row, col)` picks route `row * columns + col`.
pub fn auton_grid(autons: usize) -> (r: (usize, usize))
    requires
        autons > 0,
    ensures
        is_column_count(autons as nat, r.0 as nat),
        r.0 > 0,
        r.1 == (autons + r.0 - 1) / (r.0 as int),
{
    let columns = calculate_cols(autons);
    if columns == 0 {
        assert(2 * 0 * 0 < autons);
    }
    if columns == 1 {
        assert(autons <= 2);
    } else {
        assert(autons / columns <= autons / 2) by (nonlinear_arith)
            requires
                columns >= 2,
        ;
    }
    let rows = autons / columns + if autons % columns != 0 { 1 } else { 0 };
    assert(rows == (autons + columns - 1) / (columns as int)) by (nonlinear_arith)
        requires
            columns > 0,
            rows == autons / columns + if autons % columns != 0 { 1int } else { 0int },
    ;
    (columns, rows)
}

/// The hard-coded grid limits hold every route count the picker allows:
/// up to [MAX_AUTONS] routes need at most [MAX_COLS] columns and
/// [MAX_ROWS] rows, and every grid has a cell for every route.
pub proof fn lemma_auton_grid_fits(autons: nat, columns: nat, rows: nat)
    requires
        autons > 0,
        is_column_count(autons, columns),
        columns > 0,
        rows == (autons + columns - 1) / (columns as int),
    ensures
        rows * columns >= autons,
        autons <= MAX_AUTONS ==> columns <= MAX_COLS && rows <= MAX_ROWS,
{
    assert(rows * columns >= autons) by (nonlinear_arith)
        requires
            columns > 0,
            rows == (autons + columns - 1) / (columns as int),
    ;
    if autons <= MAX_AUTONS {
        if columns > 3 {
            assert(2 * (columns - 1) * (columns - 1) >= 18) by (nonlinear_arith)
                requires
                    columns >= 4,
            ;
        }
        assert(columns <= 3);
        if columns == 1 {
            assert(2 * columns * columns == 2) by (nonlinear_arith) requires columns == 1;
        } else if columns == 2 {
            assert(2 * columns * columns == 8) by (nonlinear_arith) requires columns == 2;
        } else {
            assert(2 * columns * columns == 18) by (nonlinear_arith) requires columns == 3;
        }
    }
}

/// UI state that remembers whether it was handed out for changes since the
/// UI last took it in.
#[derive(Debug)]
pub struct TrackedState<S> {
    inner: S,
    has_changed: bool,
}

impl<S> TrackedState<S> {
    /// The state.
    pub closed spec fn spec_inner(&self) -> S {
        self.inner
    }

    /// Whether the state was handed out for changes since the UI last took it in.
    pub closed spec fn spec_has_changed(&self) -> bool {
        self.has_changed
    }

    /// Tracks `inner`, unchanged so far.
    pub fn new(inner: S) -> (r: Self)
        ensures
            r.spec_inner() == inner,
            !r.spec_has_changed(),
    {
        TrackedState { inner, has_changed: false }
    }

    /// The state, to read.
    pub fn get(&self) -> (r: &S)
        ensures
            *r == self.spec_inner(),
    {
        &self.inner
    }

    /// The state, to change: marks it changed.
    pub fn get_mut(&mut self) -> (r: &mut S)
        ensures
            *r == old(self).spec_inner(),
            final(self).spec_inner() == *final(r),
            final(self).spec_has_changed(),
    {
        self.has_changed = true;
        &mut self.inner
    }

    /// Whether the state was handed out for changes since the UI last took it in.
    pub fn has_changed(&self) -> (r: bool)
        ensures
            r == self.spec_has_changed(),
    {
        self.has_changed
    }

    /// The UI takes in the state: clears the mark.
    pub fn clear_changed(&mut self)
        ensures
            final(self).spec_inner() == old(self).spec_inner(),
            !final(self).spec_has_changed(),
    {
        self.has_changed = false;
    }

    /// Replaces the state with the UI's copy, leaving the mark as it is.
    pub fn update(&mut self, new: S)
        ensures
            final(self).spec_inner() == new,
            final(self).spec_has_changed() == old(self).spec_has_changed(),
    {
        self.inner = new;
    }
}

/// The calibrate button of the odometry page is pressed: a calibration
/// starts, and the calibration callback is to be run, only when none is
/// under way already. Returns whether to run the callback.
pub fn press_calibrate(calibrating: &mut bool) -> (run_callback: bool)
    ensures
        run_callback == !*old(calibrating),
        *final(calibrating),
{
    if !*calibrating {
        *calibrating = true;
        true
    } else {
        false
    }
}

/// The label of the calibrate button.
pub fn calibrate_label(calibrating: bool) -> (r: &'static str)
    ensures
        calibrating ==> r@ == "Calibrating..."@,
        !calibrating ==> r@ == "Calibrate"@,
{
    if calibrating {
        "Calibrating..."
    } else {
        "Calibrate"
    }
}

} // verus!
