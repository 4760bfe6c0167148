use cpu_renderer::renderer::{front_to_back_order, Renderer};

#[test]
fn render_orders_front_to_back_and_empties_queue() {
    let mut r: Renderer<&str, u8> = Renderer::new();
    r.queue_mesh("far", 0);
    r.queue_mesh("near", 1);
    r.queue_mesh("mid", 2);
    assert_eq!(r.queued().len(), 3);
    let d = vec![9.0f32.to_bits(), 1.0f32.to_bits(), 4.0f32.to_bits()];
    let list = r.render(&d);
    let names: Vec<&str> = list.iter().map(|o| o.mesh).collect();
    assert_eq!(names, vec!["near", "mid", "far"]);
    assert!(r.queued().is_empty());
}

#[test]
fn render_is_stable_for_equal_distances() {
    let mut r: Renderer<u8, ()> = Renderer::new();
    for i in 0..5 {
        r.queue_mesh(i, ());
    }
    let d = vec![2.0f32, 1.0, 2.0, 1.0, -0.0].iter().map(|x| x.to_bits()).collect();
    let list = r.render(&d);
    let order: Vec<u8> = list.iter().map(|o| o.mesh).collect();
    assert_eq!(order, vec![4, 1, 3, 0, 2]);
}

#[test]
fn zero_and_negative_zero_tie() {
    let d = vec![0.0f32.to_bits(), (-0.0f32).to_bits()];
    assert_eq!(front_to_back_order(&d), vec![0, 1]);
    let d = vec![(-0.0f32).to_bits(), 0.0f32.to_bits()];
    assert_eq!(front_to_back_order(&d), vec![0, 1]);
}

#[test]
fn order_matches_stable_sort() {
    let vals = [3.5f32, -1.0, 3.5, 0.0, f32::INFINITY, 2.0, -1.0, 100.0, 0.5];
    let d: Vec<u32> = vals.iter().map(|x| x.to_bits()).collect();
    let mut expected: Vec<usize> = (0..vals.len()).collect();
    expected.sort_by(|&a, &b| vals[a].partial_cmp(&vals[b]).unwrap());
    assert_eq!(front_to_back_order(&d), expected);
}

#[test]
fn empty_queue_renders_nothing() {
    let mut r: Renderer<u8, u8> = Renderer::new();
    let list = r.render(&Vec::new());
    assert!(list.is_empty());
}
