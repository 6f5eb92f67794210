//! System monitor app: gauges and figures.

use vstd::prelude::*;
use crate::graphics::framebuffer::{
    Canvas, Color, Framebuffer, accent_word, muted_word, rgb_word, success_word, white_word,
    zamin_fg_word,
};
use crate::text::{decimal, lemma_decimal_len_u64, push_decimal, push_str, string_of};
use crate::ui::Shell;
use crate::ui::apps::welcome::sat_sub;

verus! {

/// Label, used amount, total and bar colour of gauge `k`: heap bytes against the heap size
/// (at least 1), events against 200, uptime seconds against 60.
pub open spec fn gauge(k: int, heap_used: usize, heap_size: usize, events: u32, uptime: u32) -> (Seq<char>, int, int, u32) {
    if k == 0 {
        ("Heap"@, heap_used as int, if heap_size >= 1 { heap_size as int } else { 1 }, success_word())
    } else if k == 1 {
        ("Events"@, events as int, 200, accent_word())
    } else {
        ("Uptime"@, uptime as int, 60, zamin_fg_word())
    }
}

/// The figures printed at the right of gauge `k`: `used / total`, in KiB for the heap.
pub open spec fn gauge_detail(k: int, used: int, total: int) -> Seq<char> {
    if k == 0 {
        decimal((used / 1024) as nat) + " / "@ + decimal((total / 1024) as nat) + " KiB"@
    } else {
        decimal(used as nat) + " / "@ + decimal(total as nat)
    }
}

/// Length of the filled part of a `gw` long bar for `used` out of `total`.
pub open spec fn gauge_fill(used: int, total: int, gw: int) -> int {
    if total > 0 {
        (if used < total { used } else { total }) * gw / total
    } else {
        0
    }
}

/// The first `n` gauges from (`gx`, `gy`), 36 pixels apart, each `gw` wide.
pub open spec fn gauges_canvas(
    cv: Canvas,
    heap_used: usize,
    heap_size: usize,
    events: u32,
    uptime: u32,
    gx: int,
    gy: int,
    gw: int,
    n: nat,
) -> Canvas
    decreases n,
{
    if n == 0 {
        cv
    } else {
        let k = n - 1;
        let (label, used, total, color) = gauge(k, heap_used, heap_size, events, uptime);
        let y = gy + 36 * k;
        let detail = gauge_detail(k, used, total);
        let fill = gauge_fill(used, total, gw);
        let c1 = gauges_canvas(cv, heap_used, heap_size, events, uptime, gx, gy, gw, (n - 1) as nat).text(
            gx,
            y,
            label,
            white_word(),
            1,
        ).fill_rect(gx, y + 12, gw, 14, rgb_word(0x1a, 0x2a, 0x44) as u32);
        let c2 = if fill > 0 { c1.fill_rect(gx, y + 12, fill, 14, color) } else { c1 };
        c2.text(gx + gw - detail.len() * 8 - 4, y, detail, muted_word(), 1)
    }
}

/// The key and value of line `k` of the information list.
pub open spec fn info_line(k: int) -> (Seq<char>, Seq<char>) {
    if k == 0 {
        ("Arch"@, "aarch64"@)
    } else if k == 1 {
        ("CPU"@, "cortex-a72"@)
    } else if k == 2 {
        ("Boot"@, "EL2 -> EL1"@)
    } else {
        ("FB"@, "ramfb 800x600"@)
    }
}

/// The first `n` lines of the information list from (`gx`, `iy`), 14 pixels apart.
pub open spec fn info_canvas(cv: Canvas, gx: int, iy: int, n: nat) -> Canvas
    decreases n,
{
    if n == 0 {
        cv
    } else {
        let (k, v) = info_line(n - 1);
        info_canvas(cv, gx, iy, (n - 1) as nat).text(gx, iy + 14 * (n - 1), k, accent_word(), 1).text(
            gx + 80,
            iy + 14 * (n - 1),
            v,
            white_word(),
            1,
        )
    }
}

/// The system monitor in the `w` x `h` area at (`x`, `y`): title, three gauges, and the
/// information list when there is room below them.
pub open spec fn sysmon_canvas(
    cv: Canvas,
    heap_used: usize,
    heap_size: usize,
    events: u32,
    uptime: u32,
    x: int,
    y: int,
    w: int,
    h: int,
) -> Canvas {
    let big = w >= 500;
    let ts = if big { 3int } else { 2 };
    let c1 = cv.text(x + 16, y + 14, "System"@, zamin_fg_word(), ts).text(
        x + 16,
        y + 14 + (8 * ts + 4),
        "Monitor"@,
        white_word(),
        ts,
    );
    let gauge_y = y + if big { 120int } else { 90 };
    let gx = x + 16;
    let gw = sat_sub(w, 32);
    let c2 = gauges_canvas(c1, heap_used, heap_size, events, uptime, gx, gauge_y, gw, 3);
    let gy = gauge_y + 3 * 36;
    if h > gy - y + 80 {
        info_canvas(c2, gx, gy + 10, 4)
    } else {
        c2
    }
}

/// Whether the figures of every gauge fit left of the right edge of the gauges.
pub open spec fn details_fit(heap_used: usize, heap_size: usize, events: u32, uptime: u32, x: int, w: int) -> bool {
    forall|k: int|
        0 <= k < 3 ==> {
            let (label, used, total, color) = #[trigger] gauge(k, heap_used, heap_size, events, uptime);
            8 * gauge_detail(k, used, total).len() + 4 <= x + 16 + sat_sub(w, 32)
        }
}

/// Draws the system monitor in the `w` x `h` area at (`x`, `y`).
pub fn draw(shell: &Shell, fb: &mut Framebuffer, x: u32, y: u32, w: u32, h: u32)
    requires
        old(fb)@.wf(),
        x + w + 1024 <= u32::MAX,
        y + 1024 <= u32::MAX,
        (if shell.heap_size >= 1 { shell.heap_size as int } else { 1 }) * sat_sub(w as int, 32)
            <= u64::MAX,
        details_fit(shell.heap_used, shell.heap_size, shell.event_count, shell.uptime_ticks, x as int, w as int),
    ensures
        final(fb)@ == sysmon_canvas(
            old(fb)@,
            shell.heap_used,
            shell.heap_size,
            shell.event_count,
            shell.uptime_ticks,
            x as int,
            y as int,
            w as int,
            h as int,
        ),
        final(fb)@.wf(),
{
    proof {
        reveal_strlit("System");
        reveal_strlit("Monitor");
    }
    let big = w >= 500;

    let title_scale: u32 = if big {
        3
    } else {
        2
    };
    fb.draw_text(x + 16, y + 14, "System", Color::zamin_fg(), title_scale);
    fb.draw_text(x + 16, y + 14 + (8 * title_scale + 4), "Monitor", Color::white(), title_scale);
    let ghost c1 = fb@;

    // Gauges: heap, events, uptime
    let gauge_y = y + if big {
        120
    } else {
        90
    };
    let gauge_h = 14u32;
    let heap_total: usize = if shell.heap_size >= 1 {
        shell.heap_size
    } else {
        1
    };
    let gauges = [
        ("Heap", shell.heap_used as u64, heap_total as u64, Color::success()),
        ("Events", shell.event_count as u64, 200, Color::accent()),
        ("Uptime", shell.uptime_ticks as u64, 60, Color::zamin_fg()),
    ];

    let gx = x + 16;
    let gw = w.saturating_sub(32);
    let mut gy = gauge_y;
    let mut k: usize = 0;
    while k < 3
        invariant
            0 <= k <= 3,
            fb@.wf(),
            gx == x + 16,
            gw == sat_sub(w as int, 32),
            gy == gauge_y + 36 * k,
            x + w + 1024 <= u32::MAX,
            y + 1024 <= u32::MAX,
            gauge_y <= y + 120,
            gauge_h == 14,
            (if shell.heap_size >= 1 { shell.heap_size as int } else { 1 }) * gw <= u64::MAX,
            details_fit(shell.heap_used, shell.heap_size, shell.event_count, shell.uptime_ticks, x as int, w as int),
            forall|j: int|
                0 <= j < 3 ==> {
                    let (l, u, t, c) = gauge(j, shell.heap_used, shell.heap_size, shell.event_count, shell.uptime_ticks);
                    &&& (#[trigger] gauges@[j]).0@ == l
                    &&& gauges@[j].1 == u
                    &&& gauges@[j].2 == t
                    &&& gauges@[j].3.0 == c
                },
            fb@ == gauges_canvas(c1, shell.heap_used, shell.heap_size, shell.event_count, shell.uptime_ticks, gx as int, gauge_y as int, gw as int, k as nat),
        decreases 3 - k,
    {
        let (label, used, total, color) = gauges[k];
        proof {
            reveal_strlit("Heap");
            reveal_strlit("Events");
            reveal_strlit("Uptime");
            reveal_strlit(" / ");
            reveal_strlit(" KiB");
            lemma_decimal_len_u64(used);
            lemma_decimal_len_u64(total);
            lemma_decimal_len_u64(used / 1024);
            lemma_decimal_len_u64(total / 1024);
            let _ = gauge(k as int, shell.heap_used, shell.heap_size, shell.event_count, shell.uptime_ticks);
        }
        fb.draw_text(gx, gy, label, Color::white(), 1);
        let bar_y = gy + 12;
        fb.fill_rect(gx, bar_y, gw, gauge_h, Color::rgb(0x1a, 0x2a, 0x44));
        let shown = if used < total {
            used
        } else {
            total
        };
        proof {
            let ghost hs: int = if shell.heap_size >= 1 { shell.heap_size as int } else { 1 };
            if k == 0 {
                assert(total == hs);
            } else {
                assert(total <= 200);
                assert(total * gw <= 200 * 0xffff_ffff) by (nonlinear_arith)
                    requires
                        total <= 200,
                        gw <= 0xffff_ffff,
                ;
            }
            assert(total * gw <= u64::MAX);
        }
        assert(shown * gw <= total * gw) by (nonlinear_arith)
            requires
                shown <= total,
        ;
        assert(total > 0 ==> (shown as int) * (gw as int) / (total as int) <= gw) by (nonlinear_arith)
            requires
                shown <= total,
        ;
        let frac = if total > 0 {
            (shown * gw as u64 / total) as u32
        } else {
            0
        };
        if frac > 0 {
            fb.fill_rect(gx, bar_y, frac, gauge_h, color);
        }
        let mut detail = String::new();
        if k == 0 {
            push_decimal(&mut detail, used / 1024);
            push_str(&mut detail, " / ");
            push_decimal(&mut detail, total / 1024);
            push_str(&mut detail, " KiB");
        } else {
            push_decimal(&mut detail, used);
            push_str(&mut detail, " / ");
            push_decimal(&mut detail, total);
        }
        let n = detail.as_str().unicode_len() as u32;
        fb.draw_text(gx + gw - n * 8 - 4, gy, detail.as_str(), Color::muted(), 1);
        gy += gauge_h + 22;
        k += 1;
    }

    // Key/value list below, when there is room
    if h > gy - y + 80 {
        let info = [("Arch", "aarch64"), ("CPU", "cortex-a72"), ("Boot", "EL2 -> EL1"), ("FB", "ramfb 800x600")];
        let ghost c2 = fb@;
        let mut iy = gy + 10;
        let mut j: usize = 0;
        while j < 4
            invariant
                0 <= j <= 4,
                fb@.wf(),
                iy == gy + 10 + 14 * j,
                gy <= y + 228,
                x + w + 1024 <= u32::MAX,
                y + 1024 <= u32::MAX,
                gx == x + 16,
                forall|i: int| 0 <= i < 4 ==> ((#[trigger] info@[i]).0@, info@[i].1@) == info_line(i),
                fb@ == info_canvas(c2, gx as int, gy + 10, j as nat),
            decreases 4 - j,
        {
            proof {
                reveal_strlit("Arch");
                reveal_strlit("aarch64");
                reveal_strlit("CPU");
                reveal_strlit("cortex-a72");
                reveal_strlit("Boot");
                reveal_strlit("EL2 -> EL1");
                reveal_strlit("FB");
                reveal_strlit("ramfb 800x600");
                let _ = info_line(j as int);
            }
            let (key, value) = info[j];
            fb.draw_text(gx, iy, key, Color::accent(), 1);
            fb.draw_text(gx + 80, iy, value, Color::white(), 1);
            iy += 14;
            j += 1;
        }
    }
}

/// A gauge's filled length never exceeds the bar, grows with the amount, is empty for
/// nothing and full once the amount reaches the total; it is the largest length whose
/// share of the bar does not exceed the amount's share of the total.
pub proof fn law_gauge_fill(used: int, used2: int, total: int, gw: int)
    requires
        0 <= used <= used2,
        total > 0,
        gw >= 0,
    ensures
        0 <= gauge_fill(used, total, gw) <= gw,
        gauge_fill(used, total, gw) <= gauge_fill(used2, total, gw),
        used == 0 ==> gauge_fill(used, total, gw) == 0,
        used >= total ==> gauge_fill(used, total, gw) == gw,
        used <= total ==> gauge_fill(used, total, gw) * total <= used * gw < (gauge_fill(used, total, gw) + 1)
            * total,
{
    let a = if used < total { used } else { total };
    let b = if used2 < total { used2 } else { total };
    assert(0 <= a * gw <= b * gw <= total * gw) by (nonlinear_arith)
        requires
            0 <= a <= b <= total,
            gw >= 0,
    ;
    vstd::arithmetic::div_mod::lemma_div_is_ordered(a * gw, b * gw, total);
    vstd::arithmetic::div_mod::lemma_div_is_ordered(b * gw, total * gw, total);
    vstd::arithmetic::div_mod::lemma_div_multiples_vanish(gw, total);
    vstd::arithmetic::div_mod::lemma_div_pos_is_pos(a * gw, total);
    vstd::arithmetic::div_mod::lemma_fundamental_div_mod(a * gw, total);
    vstd::arithmetic::div_mod::lemma_mod_bound(a * gw, total);
    assert(total * gw / total == gw);
    assert((a * gw / total) * total == total * (a * gw / total)) by (nonlinear_arith);
    assert((a * gw / total + 1) * total == total * (a * gw / total) + total) by (nonlinear_arith);
    if used == 0 {
        assert(a * gw == 0) by (nonlinear_arith)
            requires
                a == 0,
        ;
    }
}

} // verus!
