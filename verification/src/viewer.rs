//! Scroll and zoom state of the spectrogram viewer, and the file-size label
//! of its info pane.

use vstd::prelude::*;
use crate::keys::Key;
use crate::text::{decimal, decimal_string};

verus! {

/// What the viewer asks of its caller after a key.
#[derive(Debug, Clone, Copy, PartialEq, Eq, Structural)]
pub enum ViewAction {
    Continue,
    Back,
}

/// Scroll and zoom of the spectrogram view: the first visible grid column
/// and the number of grid columns per screen cell (`usize::MAX` means "fit
/// the whole file", pinned to the column count at the next key).
#[derive(Debug, Clone, Copy, PartialEq, Eq, Structural)]
pub struct ViewerState {
    scroll: usize,
    step: usize,
}

/// The scroll and zoom values of a [`ViewerState`].
pub struct ViewerView {
    pub scroll: nat,
    pub step: nat,
}

impl View for ViewerState {
    type V = ViewerView;

    closed spec fn view(&self) -> ViewerView {
        ViewerView { scroll: self.scroll as nat, step: self.step as nat }
    }
}

/// Grid columns across a nominal 80-cell pane at zoom `step`, within
/// `1..=cols`.
pub open spec fn page_cols(step: nat, cols: nat) -> nat {
    let wide = if 80 * step > usize::MAX {
        usize::MAX as nat
    } else {
        80 * step
    };
    let capped = if wide < cols {
        wide
    } else {
        cols
    };
    if capped < 1 {
        1
    } else {
        capped
    }
}

/// The last column the view may start at.
pub open spec fn last_scroll(cols: nat) -> nat {
    if cols >= 1 {
        (cols - 1) as nat
    } else {
        0
    }
}

/// The state and action after a key, for a grid of `cols` columns when
/// known (`None` before any spectrogram exists: only `Esc`/`q` act).
pub open spec fn after_key(s: ViewerView, code: Key, cols: Option<usize>) -> (ViewerView, ViewAction) {
    match cols {
        None => (s, if code == Key::Esc || code == Key::Char('q') {
            ViewAction::Back
        } else {
            ViewAction::Continue
        }),
        Some(c0) => {
            let cols: nat = if c0 >= 1 {
                c0 as nat
            } else {
                1
            };
            let step: nat = if s.step == usize::MAX {
                cols
            } else {
                s.step
            };
            if code == Key::Esc || code == Key::Char('q') {
                (ViewerView { scroll: s.scroll, step }, ViewAction::Back)
            } else {
                let delta = if page_cols(step, cols) / 4 >= 1 {
                    page_cols(step, cols) / 4
                } else {
                    1
                };
                let moved = if code == Key::Left || code == Key::Char('h') {
                    ViewerView {
                        scroll: if s.scroll >= delta {
                            (s.scroll - delta) as nat
                        } else {
                            0
                        },
                        step,
                    }
                } else if code == Key::Right || code == Key::Char('l') {
                    ViewerView {
                        scroll: if s.scroll + delta < last_scroll(cols) {
                            s.scroll + delta
                        } else {
                            last_scroll(cols)
                        },
                        step,
                    }
                } else if code == Key::Char('+') || code == Key::Char('=') {
                    ViewerView {
                        scroll: s.scroll,
                        step: if step / 2 >= 1 {
                            step / 2
                        } else {
                            1
                        },
                    }
                } else if code == Key::Char('-') || code == Key::Char('_') {
                    let doubled = if 2 * step > usize::MAX {
                        usize::MAX as nat
                    } else {
                        2 * step
                    };
                    ViewerView {
                        scroll: s.scroll,
                        step: if doubled < cols {
                            doubled
                        } else {
                            cols
                        },
                    }
                } else if code == Key::Char('0') {
                    ViewerView { scroll: 0, step: usize::MAX as nat }
                } else {
                    ViewerView { scroll: s.scroll, step }
                };
                (
                    ViewerView {
                        scroll: if moved.scroll < last_scroll(cols) {
                            moved.scroll
                        } else {
                            last_scroll(cols)
                        },
                        step: moved.step,
                    },
                    ViewAction::Continue,
                )
            }
        },
    }
}

/// Whatever key arrives once the column count is known, the view never
/// scrolls past the last column; zooming out never goes coarser than the
/// column count; zooming in halves the (pinned) step, never below 1; and
/// every key but `0` leaves a step between 1 and the pinned step or the
/// column count.
pub proof fn lemma_view_stays_in_grid(s: ViewerView, code: Key, cols: usize)
    requires
        s.step >= 1,
    ensures
        ({
            let c: nat = if cols >= 1 {
                cols as nat
            } else {
                1
            };
            let pinned: nat = if s.step == usize::MAX {
                c
            } else {
                s.step
            };
            let after = after_key(s, code, Some(cols)).0;
            &&& code != Key::Esc && code != Key::Char('q') ==> after.scroll <= (c - 1) as nat
            &&& (code == Key::Char('-') || code == Key::Char('_')) ==> 1 <= after.step <= c
            &&& (code == Key::Char('+') || code == Key::Char('=')) ==> after.step == (if pinned / 2
                >= 1 {
                pinned / 2
            } else {
                1
            })
            &&& code != Key::Char('0') ==> after.step >= 1
        }),
{
}

/// Zooming out (`-` or `_`) with a known column count doubles the pinned
/// step, but never past the column count (at least 1); so below the column
/// count a step of at least 1 always grows. The scroll position only moves
/// back onto the grid.
pub proof fn lemma_zoom_out_doubles(s: ViewerView, code: Key, cols: usize)
    requires
        code == Key::Char('-') || code == Key::Char('_'),
    ensures
        ({
            let c: nat = if cols >= 1 {
                cols as nat
            } else {
                1
            };
            let pinned: nat = if s.step == usize::MAX {
                c
            } else {
                s.step
            };
            let after = after_key(s, code, Some(cols));
            &&& after.1 == ViewAction::Continue
            &&& after.0.step == if 2 * pinned < c {
                2 * pinned
            } else {
                c
            }
            &&& (1 <= pinned < c ==> after.0.step > pinned)
            &&& after.0.scroll == if s.scroll <= c - 1 {
                s.scroll
            } else {
                (c - 1) as nat
            }
        }),
{
}

impl ViewerState {
    /// The initial view: scrolled to the start, zoomed to fit.
    pub fn new() -> (r: Self)
        ensures
            r@.scroll == 0,
            r@.step == usize::MAX,
    {
        ViewerState { scroll: 0, step: usize::MAX }
    }

    /// First visible grid column.
    pub fn scroll(&self) -> (r: usize)
        ensures
            r == self@.scroll,
    {
        self.scroll
    }

    /// Grid columns per screen cell.
    pub fn step(&self) -> (r: usize)
        ensures
            r == self@.step,
    {
        self.step
    }

    /// Sets the zoom (the drawing code normalizes it to the displayed step).
    pub fn set_step(&mut self, step: usize)
        ensures
            final(self)@.step == step,
            final(self)@.scroll == old(self)@.scroll,
    {
        self.step = step;
    }

    /// Reacts to a key: `Esc`/`q` go back; `Left`/`h` and `Right`/`l`
    /// scroll by a quarter page (at least one column); `+`/`=` halve the
    /// step (zoom in, down to 1); `-`/`_` double it (zoom out, up to the
    /// column count); `0` scrolls to the start and fits the whole file.
    /// The scroll position never passes the last column.
    pub fn handle_key(&mut self, code: Key, cols: Option<usize>) -> (r: ViewAction)
        requires
            code == Key::Right || code == Key::Char('l') ==> (cols matches Some(c) ==> old(
                self,
            )@.scroll + c + 1 <= usize::MAX),
        ensures
            (final(self)@, r) == after_key(old(self)@, code, cols),
            (code == Key::Char('-') || code == Key::Char('_')) ==> (cols matches Some(c0) ==> ({
                let c: nat = if c0 >= 1 {
                    c0 as nat
                } else {
                    1
                };
                let pinned: nat = if old(self)@.step == usize::MAX {
                    c
                } else {
                    old(self)@.step
                };
                final(self)@.step == if 2 * pinned < c {
                    2 * pinned
                } else {
                    c
                }
            })),
    {
        proof {
            if code == Key::Char('-') || code == Key::Char('_') {
                if let Some(c0) = cols {
                    lemma_zoom_out_doubles(self@, code, c0);
                }
            }
        }
        let cols = match cols {
            Some(c) => if c >= 1 {
                c
            } else {
                1
            },
            None => {
                return match code {
                    Key::Esc => ViewAction::Back,
                    Key::Char('q') => ViewAction::Back,
                    _ => ViewAction::Continue,
                };
            },
        };
        if self.step == usize::MAX {
            self.step = cols;
        }
        match code {
            Key::Esc => {
                return ViewAction::Back;
            },
            Key::Char('q') => {
                return ViewAction::Back;
            },
            Key::Left | Key::Char('h') => {
                let delta = self.page(cols) / 4;
                let delta = if delta >= 1 {
                    delta
                } else {
                    1
                };
                self.scroll = if self.scroll >= delta {
                    self.scroll - delta
                } else {
                    0
                };
            },
            Key::Right | Key::Char('l') => {
                let delta = self.page(cols) / 4;
                let delta = if delta >= 1 {
                    delta
                } else {
                    1
                };
                let moved = self.scroll + delta;
                let last = self.max_scroll(cols);
                self.scroll = if moved < last {
                    moved
                } else {
                    last
                };
            },
            Key::Char('+') | Key::Char('=') => {
                let half = self.step / 2;
                self.step = if half >= 1 {
                    half
                } else {
                    1
                };
            },
            Key::Char('-') | Key::Char('_') => {
                let doubled = if self.step > usize::MAX / 2 {
                    usize::MAX
                } else {
                    self.step * 2
                };
                self.step = if doubled < cols {
                    doubled
                } else {
                    cols
                };
            },
            Key::Char('0') => {
                self.scroll = 0;
                self.step = usize::MAX;
            },
            _ => {},
        }
        let last = self.max_scroll(cols);
        if self.scroll > last {
            self.scroll = last;
        }
        ViewAction::Continue
    }

    /// Grid columns visible across a nominal 80-cell pane, within
    /// `1..=cols`.
    pub fn page(&self, cols: usize) -> (r: usize)
        ensures
            r == page_cols(self@.step, cols as nat),
    {
        let wide = if self.step > usize::MAX / 80 {
            usize::MAX
        } else {
            self.step * 80
        };
        let capped = if wide < cols {
            wide
        } else {
            cols
        };
        if capped < 1 {
            1
        } else {
            capped
        }
    }

    /// The displayed step for `cols` grid columns on `width` cells: the
    /// zoom, but no coarser than needed to fit the whole file
    /// (`ceil(cols / width)`), and at least 1.
    pub fn effective_step(&self, cols: usize, width: usize) -> (r: usize)
        ensures
            r == ({
                let w: nat = if width >= 1 {
                    width as nat
                } else {
                    1
                };
                let fit: nat = ((cols as nat + w - 1) as nat) / w;
                let s: nat = if self@.step < fit {
                    self@.step
                } else {
                    fit
                };
                if s >= 1 {
                    s
                } else {
                    1
                }
            }),
    {
        let w = if width >= 1 {
            width
        } else {
            1
        };
        proof {
            let c = cols as int;
            let wi = w as int;
            assert(c % wi != 0 ==> c / wi < c) by (nonlinear_arith)
                requires
                    wi >= 1,
                    c >= 0,
            ;
        }
        let fit = cols / w + if cols % w == 0 {
            0
        } else {
            1
        };
        proof {
            let c = cols as int;
            let wi = w as int;
            assert((c + wi - 1) / wi == c / wi + if c % wi == 0 {
                0int
            } else {
                1int
            }) by (nonlinear_arith)
                requires
                    wi >= 1,
                    c >= 0,
            ;
        }
        let s = if self.step < fit {
            self.step
        } else {
            fit
        };
        if s >= 1 {
            s
        } else {
            1
        }
    }

    /// The last column the view may start at: `cols - 1`, or 0.
    pub fn max_scroll(&self, cols: usize) -> (r: usize)
        ensures
            r == last_scroll(cols as nat),
    {
        if cols >= 1 {
            cols - 1
        } else {
            0
        }
    }
}

/// Spacing of the doubles near `n`: 1 below 2^53, doubling with each bit
/// above.
pub open spec fn f64_spacing(n: nat) -> nat
    decreases n,
{
    if n < 0x20_0000_0000_0000 {
        1
    } else {
        2 * f64_spacing(n / 2)
    }
}

/// `x / d` rounded to the nearest integer, ties to even.
pub open spec fn div_round_even(x: nat, d: nat) -> nat {
    let q = x / d;
    let r = x % d;
    if 2 * r < d {
        q
    } else if 2 * r > d {
        q + 1
    } else if q % 2 == 0 {
        q
    } else {
        q + 1
    }
}

/// The value of `n as f64`: `n` rounded to the nearest double, ties to even.
pub open spec fn nearest_f64(n: nat) -> nat {
    f64_spacing(n) * div_round_even(n, f64_spacing(n))
}

/// The unit a size is shown in: 0 = B, 1 = KB, 2 = MB, 3 = GB.
pub open spec fn size_unit(v: nat) -> nat {
    if v >= 0x4000_0000 {
        3
    } else if v >= 0x10_0000 {
        2
    } else if v >= 0x400 {
        1
    } else {
        0
    }
}

/// `1024^unit`.
pub open spec fn unit_scale(unit: nat) -> nat {
    if unit == 3 {
        0x4000_0000
    } else if unit == 2 {
        0x10_0000
    } else if unit == 1 {
        0x400
    } else {
        1
    }
}

/// The name of a size unit.
pub open spec fn unit_name(unit: nat) -> Seq<char> {
    if unit == 3 {
        "GB"@
    } else if unit == 2 {
        "MB"@
    } else {
        "KB"@
    }
}

/// A byte count as shown in the info pane: below 1 KiB the exact count and
/// `B`; otherwise the size (as a double) in the largest of KB, MB, GB that
/// it reaches, with one decimal rounded to nearest, ties to even.
pub open spec fn size_label(bytes: nat) -> Seq<char> {
    let v = nearest_f64(bytes);
    let unit = size_unit(v);
    if unit == 0 {
        decimal(bytes) + " B"@
    } else {
        let tenths = div_round_even(10 * v, unit_scale(unit));
        decimal(tenths / 10) + "."@ + decimal(tenths % 10) + " "@ + unit_name(unit)
    }
}

/// `n` rounded to the nearest double, as an integer.
fn nearest_f64_value(n: u64) -> (r: u128)
    ensures
        r == nearest_f64(n as nat),
        r < 0x2_0000_0000_0000_0000,
{
    let mut m: u64 = n;
    let mut spacing: u128 = 1;
    while m >= 0x20_0000_0000_0000
        invariant
            f64_spacing(n as nat) == spacing * f64_spacing(m as nat),
            1 <= spacing < 0x1000,
            spacing == 1 || m >= 0x10_0000_0000_0000,
            spacing * (m as nat) <= n,
            (n as nat) < spacing * (m as nat) + spacing,
        decreases m,
    {
        let ghost s = spacing as nat;
        let ghost mm = m as nat;
        proof {
            assert(f64_spacing(mm) == 2 * f64_spacing(mm / 2));
            assert(s * 0x20_0000_0000_0000 <= s * mm) by (nonlinear_arith)
                requires
                    mm >= 0x20_0000_0000_0000,
            ;
            assert(s * 0x20_0000_0000_0000 <= n);
            assert(s < 0x800) by (nonlinear_arith)
                requires
                    s * 0x20_0000_0000_0000 <= n,
                    n < 0x1_0000_0000_0000_0000,
            ;
        }
        m = m / 2;
        spacing = spacing * 2;
        proof {
            let m2 = m as nat;
            assert(mm == 2 * m2 || mm == 2 * m2 + 1);
            assert(s * f64_spacing(mm) == (2 * s) * f64_spacing(m2)) by (nonlinear_arith)
                requires
                    f64_spacing(mm) == 2 * f64_spacing(m2),
            ;
            assert((2 * s) * m2 <= s * mm) by (nonlinear_arith)
                requires
                    mm == 2 * m2 || mm == 2 * m2 + 1,
            ;
            assert(s * mm + s <= (2 * s) * m2 + 2 * s) by (nonlinear_arith)
                requires
                    mm == 2 * m2 || mm == 2 * m2 + 1,
            ;
        }
    }
    let q = (n as u128) / spacing;
    let r = (n as u128) % spacing;
    proof {
        let s = spacing as nat;
        let mm = m as nat;
        assert(q == mm) by (nonlinear_arith)
            requires
                s * mm <= n,
                (n as nat) < s * mm + s,
                q == (n as nat) / s,
                s >= 1,
        ;
        assert(f64_spacing(mm) == 1);
        assert(f64_spacing(n as nat) == s * f64_spacing(mm));
        assert(s * f64_spacing(mm) == s) by (nonlinear_arith)
            requires
                f64_spacing(mm) == 1,
        ;
        assert(f64_spacing(n as nat) == s);
        assert((n as nat) / s == q);
        assert((n as nat) % s == r);
    }
    let rounded = if 2 * r < spacing {
        q
    } else if 2 * r > spacing {
        q + 1
    } else if q % 2 == 0 {
        q
    } else {
        q + 1
    };
    proof {
        assert(spacing * (q + 1) < 0x2_0000_0000_0000_0000) by (nonlinear_arith)
            requires
                spacing < 0x1000,
                q < 0x20_0000_0000_0000,
        ;
    }
    spacing * rounded
}

/// A byte count with a binary unit, as the info pane shows it (`512 B`,
/// `2.0 MB`).
pub fn fmt_size(bytes: u64) -> (r: String)
    ensures
        r@ == size_label(bytes as nat),
{
    let v = nearest_f64_value(bytes);
    let unit: u32 = if v >= 0x4000_0000 {
        3
    } else if v >= 0x10_0000 {
        2
    } else if v >= 0x400 {
        1
    } else {
        0
    };
    if unit == 0 {
        let mut s = decimal_string(bytes);
        s.append(" B");
        return s;
    }
    let scale: u128 = if unit == 3 {
        0x4000_0000
    } else if unit == 2 {
        0x10_0000
    } else {
        0x400
    };
    let x = 10 * v;
    let q = x / scale;
    let rem = x % scale;
    let tenths = if 2 * rem < scale {
        q
    } else if 2 * rem > scale {
        q + 1
    } else if q % 2 == 0 {
        q
    } else {
        q + 1
    };
    proof {
        assert(q <= x / 0x400) by (nonlinear_arith)
            requires
                q == x / scale,
                scale >= 0x400,
        ;
    }
    let whole = (tenths / 10) as u64;
    let frac = (tenths % 10) as u64;
    let mut s = decimal_string(whole);
    s.append(".");
    let f = decimal_string(frac);
    s.append(f.as_str());
    s.append(" ");
    if unit == 3 {
        s.append("GB");
    } else if unit == 2 {
        s.append("MB");
    } else {
        s.append("KB");
    }
    s
}

/// Two digits, zero-padded, for a value below 100.
pub open spec fn pad2(n: nat) -> Seq<char> {
    if n < 10 {
        "0"@ + decimal(n)
    } else {
        decimal(n)
    }
}

/// Whole seconds as a clock: `h:mm:ss` from one hour on, `m:ss` below.
pub open spec fn clock_text(total: nat) -> Seq<char> {
    let h = total / 3600;
    let m = (total % 3600) / 60;
    let sec = total % 60;
    if h > 0 {
        decimal(h) + ":"@ + pad2(m) + ":"@ + pad2(sec)
    } else {
        decimal(m) + ":"@ + pad2(sec)
    }
}

/// Appends a value below 100 as two digits.
fn push_pad2(out: &mut String, n: u64)
    requires
        n < 100,
    ensures
        final(out)@ == old(out)@ + pad2(n as nat),
{
    if n < 10 {
        out.append("0");
    }
    let d = decimal_string(n);
    out.append(d.as_str());
}

/// Whole seconds as a clock, the way the info pane shows durations
/// (`1:02`, `1:01:11`).
pub fn clock_label(total_secs: u64) -> (r: String)
    ensures
        r@ == clock_text(total_secs as nat),
{
    let h = total_secs / 3600;
    let m = (total_secs % 3600) / 60;
    let sec = total_secs % 60;
    let mut out = String::new();
    if h > 0 {
        let hs = decimal_string(h);
        out.append(hs.as_str());
        out.append(":");
        push_pad2(&mut out, m);
        out.append(":");
        push_pad2(&mut out, sec);
    } else {
        let ms = decimal_string(m);
        out.append(ms.as_str());
        out.append(":");
        push_pad2(&mut out, sec);
    }
    out
}

/// A tag line of the info pane: the name, then the value, cut after 60
/// characters with an ellipsis.
pub open spec fn tag_text(name: Seq<char>, value: Seq<char>) -> Seq<char> {
    " "@ + name + ": "@ + if value.len() > 60 {
        value.take(60) + "…"@
    } else {
        value
    }
}

/// The info-pane line of one tag.
pub fn tag_line(name: &str, value: &str) -> (r: String)
    ensures
        r@ == tag_text(name@, value@),
{
    let mut out = " ".to_owned();
    out.append(name);
    out.append(": ");
    if value.unicode_len() > 60 {
        out.append(value.substring_char(0, 60));
        out.append("…");
    } else {
        out.append(value);
    }
    out
}

/// The grid columns `[first, end)` pooled into screen column `x` of a view
/// scrolled to `scroll` at `step` columns per cell over `cols` columns
/// (sums saturate at `usize::MAX`); none once past the last column.
pub open spec fn cell_span(scroll: nat, step: nat, x: nat, cols: nat) -> Option<(nat, nat)> {
    let first = if scroll + x * step > usize::MAX {
        usize::MAX as nat
    } else {
        scroll + x * step
    };
    if first >= cols {
        None
    } else {
        let end = if first + step < cols {
            first + step
        } else {
            cols
        };
        Some((first, end))
    }
}

/// The grid columns pooled into screen column `x`.
pub fn cell_columns(scroll: usize, step: usize, x: usize, cols: usize) -> (r: Option<(usize, usize)>)
    ensures
        match cell_span(scroll as nat, step as nat, x as nat, cols as nat) {
            Some((first, end)) => r == Some((first as usize, end as usize)),
            None => r is None,
        },
{
    let offset = if step > 0 && x > usize::MAX / step {
        proof {
            assert(x * step > usize::MAX) by (nonlinear_arith)
                requires
                    step > 0,
                    x > usize::MAX / step,
            ;
        }
        usize::MAX
    } else {
        proof {
            if step > 0 {
                assert(x * step <= usize::MAX) by (nonlinear_arith)
                    requires
                        step > 0,
                        x <= usize::MAX / step,
                ;
            }
        }
        x * step
    };
    let first = if offset > usize::MAX - scroll {
        usize::MAX
    } else {
        scroll + offset
    };
    if first >= cols {
        return None;
    }
    let end = if step < cols - first {
        first + step
    } else {
        cols
    };
    Some((first, end))
}

} // verus!
