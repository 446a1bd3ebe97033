use chip8::gpu::Gpu;
use chip8::graphics::{Graphics, GRID_LEN};

fn lit_pixels(g: &Graphics) -> Vec<(usize, usize)> {
    let mut lit = Vec::new();
    for row in 0..32 {
        for col in 0..64 {
            if g.memory[row * 64 + col] {
                lit.push((col, row));
            }
        }
    }
    lit
}

#[test]
fn new_graphics_is_dark() {
    let g = Graphics::new();
    assert_eq!(g.memory.len(), GRID_LEN);
    assert!(g.memory.iter().all(|p| !p));
}

#[test]
fn clear_twice_is_idempotent() {
    let mut g = Graphics::new();
    g.draw(10, 4, vec![0xFF, 0x81, 0xFF]);
    g.clear();
    let once: Vec<bool> = g.memory.clone();
    assert!(once.iter().all(|p| !p));
    g.clear();
    assert_eq!(g.memory, once);
    assert!(g.memory.iter().all(|p| !p));
}

#[test]
fn draw_twice_restores_and_collides() {
    let mut g = Graphics::new();
    g.draw(0, 0, vec![0x18, 0x24, 0x42]);
    let before: Vec<bool> = g.memory.clone();
    let first = g.draw(20, 10, vec![0xFF, 0x01]);
    assert!(!first, "the second sprite overlaps nothing lit");
    let second = g.draw(20, 10, vec![0xFF, 0x01]);
    assert!(second, "every pixel the first draw lit collides now");
    assert_eq!(g.memory, before);
}

#[test]
fn draw_wraps_around_both_edges() {
    let mut g = Graphics::new();
    let collision = g.draw(60, 30, vec![0xFF, 0xFF, 0xFF, 0xFF, 0xFF]);
    assert!(!collision);
    let lit = lit_pixels(&g);
    assert_eq!(lit.len(), 40);
    let cols = [60, 61, 62, 63, 0, 1, 2, 3];
    let rows = [30, 31, 0, 1, 2];
    for row in rows {
        for col in cols {
            assert!(g.memory[row * 64 + col], "pixel ({col}, {row}) should be lit");
        }
    }
}

#[test]
fn draw_pixel_xors_and_reports_unset() {
    let mut g = Graphics::new();
    assert!(!g.draw_pixel(5, 5, true));
    assert!(g.memory[5 * 64 + 5]);
    assert!(g.draw_pixel(5, 5, true));
    assert!(!g.memory[5 * 64 + 5]);
    assert!(!g.draw_pixel(5, 5, false));
}

#[test]
fn set_pixel_overwrites() {
    let mut g = Graphics::new();
    g.set_pixel(7, 3, true);
    assert!(g.memory[3 * 64 + 7]);
    g.set_pixel(7, 3, true);
    assert!(g.memory[3 * 64 + 7]);
    g.set_pixel(7, 3, false);
    assert!(!g.memory[3 * 64 + 7]);
}

#[test]
fn draw_pixel_wraps_coordinates() {
    let mut g = Graphics::new();
    g.draw_pixel(64 + 9, 32 + 2, true);
    assert!(g.memory[2 * 64 + 9]);
}

#[test]
fn gpu_clear_raises_pending_redraw() {
    let mut gpu = Gpu::new();
    assert!(!gpu.pending_draw);
    gpu.clear();
    assert!(gpu.pending_draw);
    assert!(gpu.graphics.memory.iter().all(|p| !p));
}

#[test]
fn gpu_draw_sets_pending_only_on_change() {
    let mut gpu = Gpu::new();
    let collision = gpu.draw(1, 1, vec![0x00, 0x00]);
    assert!(!collision);
    assert!(!gpu.pending_draw, "an all-zero sprite changes no pixel");
    gpu.draw(1, 1, vec![0x40]);
    assert!(gpu.pending_draw);
}

#[test]
fn gpu_pending_redraw_is_sticky() {
    let mut gpu = Gpu::new();
    gpu.draw(0, 0, vec![0x80]);
    assert!(gpu.pending_draw);
    gpu.draw(9, 9, vec![0x00]);
    assert!(gpu.pending_draw, "only the renderer lowers the flag");
    gpu.pending_draw = false;
    gpu.draw(9, 9, vec![0x00]);
    assert!(!gpu.pending_draw);
}

#[test]
fn gpu_draw_reports_collision() {
    let mut gpu = Gpu::new();
    assert!(!gpu.draw(10, 10, vec![0x80]));
    assert!(gpu.draw(10, 10, vec![0x80]));
    assert!(!gpu.graphics.memory[10 * 64 + 10]);
}
