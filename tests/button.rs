use foam::button::Button;

const BLUE: [u8; 4] = [0xD7, 0x78, 0x00, 0xFF];
const BLACK: [u8; 4] = [0x00, 0x00, 0x00, 0xFF];

fn fx(v: i32) -> i32 {
    v * 256
}

fn sample() -> Button {
    Button::new("b".to_string(), 10, 20, 30, 40, BLUE, BLACK)
}

#[test]
fn new_shows_default_color() {
    let b = sample();
    assert_eq!(b.rect(), (10, 20, 30, 40));
    assert_eq!(b.color(), BLUE);
    assert_eq!(b.name, "b");
}

#[test]
fn contains_is_inclusive_on_all_edges() {
    let b = sample();
    assert!(b.contains(fx(10), fx(20)));
    assert!(b.contains(fx(40), fx(60)));
    assert!(b.contains(fx(10), fx(60)));
    assert!(b.contains(fx(40), fx(20)));
    assert!(b.contains(fx(25) + 128, fx(30) + 1));
}

#[test]
fn contains_rejects_points_just_outside() {
    let b = sample();
    assert!(!b.contains(fx(10) - 1, fx(30)));
    assert!(!b.contains(fx(40) + 1, fx(30)));
    assert!(!b.contains(fx(20), fx(20) - 1));
    assert!(!b.contains(fx(20), fx(60) + 1));
    assert!(!b.contains(-fx(5), -fx(5)));
}

#[test]
fn click_twice_restores_color() {
    let mut b = sample();
    b.click();
    assert_eq!(b.color(), BLACK);
    b.click();
    assert_eq!(b.color(), BLUE);
}

#[test]
fn click_with_equal_colors_keeps_color() {
    let mut b = Button::new("same".to_string(), 0, 0, 1, 1, BLUE, BLUE);
    b.click();
    assert_eq!(b.color(), BLUE);
    b.click();
    assert_eq!(b.color(), BLUE);
}

#[test]
fn draw_fills_exactly_the_rectangle() {
    // 4 x 3 pixel buffer, button over pixels (1..3, 1..2)
    let stride = 16;
    let mut canvas = vec![7u8; 16 * 3];
    let b = Button::new("p".to_string(), 1, 1, 2, 1, BLUE, BLACK);
    b.draw(&mut canvas, stride);
    for i in 0..canvas.len() {
        let row = i / 16;
        let col = (i % 16) / 4;
        if row == 1 && (col == 1 || col == 2) {
            assert_eq!(canvas[i], BLUE[i % 4], "byte {}", i);
        } else {
            assert_eq!(canvas[i], 7, "byte {}", i);
        }
    }
}

#[test]
fn draw_uses_current_color() {
    let mut canvas = vec![0u8; 8];
    let mut b = Button::new("c".to_string(), 1, 0, 1, 1, BLUE, BLACK);
    b.click();
    b.draw(&mut canvas, 8);
    assert_eq!(canvas, vec![0, 0, 0, 0, 0x00, 0x00, 0x00, 0xFF]);
}

#[test]
fn draw_of_empty_rectangle_changes_nothing() {
    let mut canvas = vec![5u8; 32];
    let b = Button::new("e".to_string(), 0, 0, 0, 2, BLUE, BLACK);
    b.draw(&mut canvas, 16);
    assert_eq!(canvas, vec![5u8; 32]);
}
