use edict::action::{ActionBuffer, ActionBufferSliceExt, LocalActionBuffer};

type Action = Box<dyn FnOnce(&mut Vec<u32>) + Send>;
type LocalAction = Box<dyn FnOnce(&mut Vec<u32>)>;

#[test]
fn action_buffer_runs_in_order_and_empties() {
    let mut buffer: ActionBuffer<Action> = ActionBuffer::new();
    let mut world = Vec::new();
    assert!(!buffer.execute(&mut world));

    buffer.push(Box::new(|w: &mut Vec<u32>| w.push(1)));
    buffer.push(Box::new(|w: &mut Vec<u32>| w.push(2)));
    assert_eq!(buffer.len(), 2);
    assert!(buffer.execute(&mut world));
    assert_eq!(world, vec![1, 2]);
    assert_eq!(buffer.len(), 0);
    assert!(!buffer.execute(&mut world));
}

#[test]
fn local_action_buffer_pop_and_execute() {
    let mut buffer: LocalActionBuffer<LocalAction> = LocalActionBuffer::new();
    let mut world = Vec::new();
    buffer.push(Box::new(|w: &mut Vec<u32>| w.push(7)));
    buffer.push(Box::new(|w: &mut Vec<u32>| w.push(8)));
    let first = buffer.pop().unwrap();
    first(&mut world);
    assert!(buffer.execute(&mut world));
    assert_eq!(world, vec![7, 8]);
    assert!(buffer.pop().is_none());
}

#[test]
fn execute_all_buffers() {
    let mut buffers: Vec<ActionBuffer<Action>> = vec![ActionBuffer::new(), ActionBuffer::new()];
    let mut world = Vec::new();
    assert!(!buffers[..].execute_all(&mut world));
    buffers[1].push(Box::new(|w: &mut Vec<u32>| w.push(3)));
    buffers[0].push(Box::new(|w: &mut Vec<u32>| w.push(4)));
    assert!(buffers[..].execute_all(&mut world));
    assert_eq!(world, vec![4, 3]);
    assert!(!buffers[..].execute_all(&mut world));

    let mut locals: Vec<LocalActionBuffer<LocalAction>> = vec![LocalActionBuffer::new()];
    locals[0].push(Box::new(|w: &mut Vec<u32>| w.push(5)));
    assert!(locals[..].execute_all(&mut world));
    assert_eq!(world, vec![4, 3, 5]);
}

#[test]
fn execute_calls_each_action_once_on_the_world_left_by_the_previous() {
    let mut buffer: ActionBuffer<Action> = ActionBuffer::new();
    let mut world = vec![0];
    buffer.push(Box::new(|w: &mut Vec<u32>| {
        let last = *w.last().unwrap();
        w.push(last + 1)
    }));
    buffer.push(Box::new(|w: &mut Vec<u32>| {
        let last = *w.last().unwrap();
        w.push(last * 10)
    }));
    assert!(buffer.execute(&mut world));
    assert_eq!(world, vec![0, 1, 10]);
    let before = world.clone();
    assert!(!buffer.execute(&mut world));
    assert_eq!(world, before);

    let mut local: LocalActionBuffer<LocalAction> = LocalActionBuffer::new();
    assert!(!local.execute(&mut world));
    assert_eq!(world, before);
}
