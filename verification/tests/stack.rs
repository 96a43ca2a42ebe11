use sound_garden::stack::{Stack, STACK_SIZE};

fn silent() -> Stack<[f64; 2]> {
    Stack::new([0.0, 0.0])
}

#[test]
fn new_stack_peeks_and_pops_silence() {
    let mut stack = silent();

    assert_eq!(stack.peek(), [0.0, 0.0]);
    assert_eq!(stack.pop(), [0.0, 0.0]);
    assert_eq!(stack.peek(), [0.0, 0.0]);
}

#[test]
fn push_peek_and_pop_are_lifo_by_frame() {
    let mut stack = silent();

    stack.push([1.0, 2.0]);
    stack.push([3.0, 4.0]);

    assert_eq!(stack.peek(), [3.0, 4.0]);
    assert_eq!(stack.pop(), [3.0, 4.0]);
    assert_eq!(stack.pop(), [1.0, 2.0]);
    assert_eq!(stack.pop(), [0.0, 0.0]);
}

#[test]
fn reset_discards_frames() {
    let mut stack = silent();
    stack.push([1.0, 2.0]);

    stack.reset();

    assert_eq!(stack.peek(), [0.0, 0.0]);
}

#[test]
fn push_ignores_frames_after_capacity() {
    let mut stack = silent();

    for i in 0..STACK_SIZE {
        let x = i as f64;
        stack.push([x, -x]);
    }
    stack.push([99.0, 99.0]);

    let top = (STACK_SIZE - 1) as f64;
    assert_eq!(stack.peek(), [top, -top]);
}

#[test]
fn depth_counts_frames_up_to_capacity() {
    let mut stack = silent();
    assert_eq!(stack.depth(), 0);
    for _ in 0..STACK_SIZE + 3 {
        stack.push([1.0, 1.0]);
    }
    assert_eq!(stack.depth(), STACK_SIZE);
    stack.pop();
    assert_eq!(stack.depth(), STACK_SIZE - 1);
}
