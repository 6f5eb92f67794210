//! Welcome screen: boot status and branding.

use vstd::prelude::*;
use crate::graphics::framebuffer::{
    Canvas, Color, Framebuffer, accent_word, success_word, white_word, zamin_fg_word,
};
use crate::ui::Shell;

verus! {

/// The boot status lines.
pub open spec fn boot_lines() -> Seq<Seq<char>> {
    seq![
        "[ OK ]  EL2 -> EL1 boot"@,
        "[ OK ]  MMU + 4 MiB heap"@,
        "[ OK ]  GICv2 + timer"@,
        "[ OK ]  Scheduler"@,
        "[ OK ]  ramfb framebuffer"@,
        "[ OK ]  virtio-input"@,
        "[ OK ]  Multi-app shell"@,
        "[ OK ]  Mobile/Desktop layout"@,
    ]
}

/// `lines` drawn one under the other from (`x`, `y`), `lh` pixels apart.
pub open spec fn text_lines(cv: Canvas, x: int, y: int, lines: Seq<Seq<char>>, lh: int, fg: u32, s: int) -> Canvas
    decreases lines.len(),
{
    if lines.len() == 0 {
        cv
    } else {
        text_lines(cv, x, y, lines.drop_last(), lh, fg, s).text(
            x,
            y + lh * (lines.len() - 1),
            lines.last(),
            fg,
            s,
        )
    }
}

/// `a - b`, or 0 when `b` exceeds `a`.
pub open spec fn sat_sub(a: int, b: int) -> int {
    if a >= b {
        a - b
    } else {
        0
    }
}

/// The welcome screen in the `w` wide area at (`x`, `y`): a wide area (at least 500 pixels)
/// gets large text, a narrow one compact text. Title, subtitle and tag line are centred;
/// the boot status lines follow in green.
pub open spec fn welcome_canvas(cv: Canvas, x: int, y: int, w: int) -> Canvas {
    let big = w >= 500;
    let title_scale = if big { 6int } else { 3 };
    let center_x = x + w / 2;
    let sub_scale = if big { 2int } else { 1 };
    let sub_w = 25 * 8 * sub_scale;
    let tag_w = 27 * 8int;
    let lh = if big { 22int } else { 14 };
    let line_scale = if big { 2int } else { 1 };
    let ly = y + if big { 170int } else { 110 };
    let lx = x + if big { 30int } else { 12 };
    let c1 = cv.text(sat_sub(center_x, 7 * 8 * title_scale / 2), y + 16, "ZaminOS"@, zamin_fg_word(), title_scale);
    let c2 = c1.text(
        sat_sub(center_x, sub_w / 2),
        y + if big { 100int } else { 60 },
        "Konvergent OS for aarch64"@,
        white_word(),
        sub_scale,
    );
    let c3 = c2.text(
        sat_sub(center_x, tag_w / 2),
        y + if big { 130int } else { 80 },
        "Mobile-first, desktop-ready"@,
        accent_word(),
        1,
    );
    text_lines(c3, lx, ly, boot_lines(), lh, success_word(), line_scale)
}

/// Draws the welcome screen in the `w` x `h` area at (`x`, `y`).
pub fn draw(_shell: &Shell, fb: &mut Framebuffer, x: u32, y: u32, w: u32, _h: u32)
    requires
        old(fb)@.wf(),
        x + w / 2 + 512 <= u32::MAX,
        y + 512 <= u32::MAX,
    ensures
        final(fb)@ == welcome_canvas(old(fb)@, x as int, y as int, w as int),
        final(fb)@.wf(),
{
    // Large or compact layout by the width.
    let big = w >= 500;

    let title_scale: u32 = if big {
        6
    } else {
        3
    };
    let center_x = x + w / 2;
    let title_w = 7 * 8 * title_scale;
    proof {
        reveal_strlit("ZaminOS");
        reveal_strlit("Konvergent OS for aarch64");
        reveal_strlit("Mobile-first, desktop-ready");
    }
    fb.draw_text(center_x.saturating_sub(title_w / 2), y + 16, "ZaminOS", Color::zamin_fg(), title_scale);

    let sub = "Konvergent OS for aarch64";
    let sub_scale: u32 = if big {
        2
    } else {
        1
    };
    let sub_w = (sub.unicode_len() as u32) * 8 * sub_scale;
    fb.draw_text(
        center_x.saturating_sub(sub_w / 2),
        y + if big {
            100
        } else {
            60
        },
        sub,
        Color::white(),
        sub_scale,
    );

    let tag = "Mobile-first, desktop-ready";
    let tag_w = (tag.unicode_len() as u32) * 8;
    fb.draw_text(
        center_x.saturating_sub(tag_w / 2),
        y + if big {
            130
        } else {
            80
        },
        tag,
        Color::accent(),
        1,
    );
    let ghost c3 = fb@;

    let lines = [
        "[ OK ]  EL2 -> EL1 boot",
        "[ OK ]  MMU + 4 MiB heap",
        "[ OK ]  GICv2 + timer",
        "[ OK ]  Scheduler",
        "[ OK ]  ramfb framebuffer",
        "[ OK ]  virtio-input",
        "[ OK ]  Multi-app shell",
        "[ OK ]  Mobile/Desktop layout",
    ];
    proof {
        reveal_strlit("[ OK ]  EL2 -> EL1 boot");
        reveal_strlit("[ OK ]  MMU + 4 MiB heap");
        reveal_strlit("[ OK ]  GICv2 + timer");
        reveal_strlit("[ OK ]  Scheduler");
        reveal_strlit("[ OK ]  ramfb framebuffer");
        reveal_strlit("[ OK ]  virtio-input");
        reveal_strlit("[ OK ]  Multi-app shell");
        reveal_strlit("[ OK ]  Mobile/Desktop layout");
    }

    let lh: u32 = if big {
        22
    } else {
        14
    };
    let line_scale: u32 = if big {
        2
    } else {
        1
    };
    let mut ly = y + if big {
        170
    } else {
        110
    };
    let lx = x + if big {
        30
    } else {
        12
    };
    let mut i: usize = 0;
    while i < 8
        invariant
            0 <= i <= 8,
            fb@.wf(),
            ly == y + (if big { 170int } else { 110 }) + lh * i,
            lh == (if big { 22int } else { 14 }),
            line_scale == (if big { 2int } else { 1 }),
            lx == x + (if big { 30int } else { 12 }),
            x + w / 2 + 512 <= u32::MAX,
            y + 512 <= u32::MAX,
            big == (w >= 500),
            forall|j: int| 0 <= j < 8 ==> (#[trigger] lines@[j])@.len() <= 29,
            Seq::new(8, |j: int| lines@[j]@) == boot_lines(),
            fb@ == text_lines(
                c3,
                lx as int,
                (y + if big { 170int } else { 110 }),
                boot_lines().subrange(0, i as int),
                lh as int,
                success_word(),
                line_scale as int,
            ),
        decreases 8 - i,
    {
        let line = lines[i];
        proof {
            let ls = boot_lines().subrange(0, i + 1);
            assert(ls.drop_last() =~= boot_lines().subrange(0, i as int));
        }
        fb.draw_text(lx, ly, line, Color::success(), line_scale);
        ly += lh;
        i += 1;
    }
    assert(boot_lines().subrange(0, 8) =~= boot_lines());
}

} // verus!
