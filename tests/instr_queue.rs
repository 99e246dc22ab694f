use std::rc::Rc;

use cpu_emulator::instr_queue::InstrQueue;
use cpu_emulator::instructions::{create_instr, Instr, Opcode, Operand, SourceLocation};

fn printr(r: u16) -> Rc<Instr> {
    let loc = SourceLocation { line: r as usize, column: 1 };
    Rc::new(create_instr(Opcode::PRINTR, &vec![Operand::Register(r)], loc).unwrap())
}

#[test]
fn new_queue_is_empty() {
    let q = InstrQueue::new(3);
    assert!(q.is_empty());
    assert!(!q.is_full());
    assert_eq!(q.size(), 0);
}

#[test]
fn filling_to_capacity_makes_it_full() {
    let mut q = InstrQueue::new(4);
    for k in 0..4u16 {
        assert!(!q.is_full());
        q.enqueue(printr(k));
        assert_eq!(q.size(), k + 1);
    }
    assert!(q.is_full());
    q.dequeue();
    assert!(!q.is_full());
    assert_eq!(q.size(), 3);
}

#[test]
fn items_leave_in_order_across_wraparound() {
    let mut q = InstrQueue::new(3);
    let mut enqueued = 0u16;
    let mut dequeued = 0u16;
    for round in 0..5u16 {
        while !q.is_full() {
            q.enqueue(printr(enqueued));
            enqueued += 1;
            assert_eq!(q.size(), enqueued - dequeued);
        }
        for _ in 0..(round % 3) + 1 {
            let head = q.peek();
            assert_eq!(head.source[0], Operand::Register(dequeued));
            q.dequeue();
            dequeued += 1;
            assert_eq!(q.size(), enqueued - dequeued);
        }
    }
    while !q.is_empty() {
        assert_eq!(q.peek().source[0], Operand::Register(dequeued));
        q.dequeue();
        dequeued += 1;
    }
    assert_eq!(enqueued, dequeued);
}

#[test]
fn peek_shares_the_enqueued_instruction() {
    let mut q = InstrQueue::new(2);
    let instr = printr(5);
    q.enqueue(Rc::clone(&instr));
    let head = q.peek();
    assert!(Rc::ptr_eq(&head, &instr));
    assert_eq!(q.size(), 1);
}
