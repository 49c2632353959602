use geng::draw_2d::Corner::{Back, Forward, Inner, Left, Middle, Right};
use geng::draw_2d::{chain_layout, ChainVertex, Corner, Joint};

fn v(point: usize, corner: Corner) -> ChainVertex {
    ChainVertex { point, corner }
}

#[test]
fn chain_of_fewer_than_two_points_is_empty() {
    assert!(chain_layout(0, &vec![]).is_empty());
    assert!(chain_layout(1, &vec![]).is_empty());
}

#[test]
fn chain_of_two_points_is_one_quad() {
    assert_eq!(
        chain_layout(2, &vec![]),
        vec![v(0, Left), v(0, Right), v(1, Left), v(0, Right), v(1, Left), v(1, Right)]
    );
}

#[test]
fn straight_chain_shares_edges() {
    assert_eq!(
        chain_layout(3, &vec![Joint::Straight]),
        vec![
            v(0, Left), v(0, Right), v(1, Left), v(0, Right), v(1, Left), v(1, Right),
            v(1, Left), v(1, Right), v(2, Left), v(1, Right), v(2, Left), v(2, Right),
        ]
    );
}

#[test]
fn turning_chain_is_rounded() {
    assert_eq!(
        chain_layout(3, &vec![Joint::TurnLeft]),
        vec![
            v(0, Left), v(0, Right), v(1, Inner), v(0, Right), v(1, Inner), v(1, Back),
            v(1, Back), v(1, Inner), v(1, Middle), v(1, Forward), v(1, Inner), v(1, Middle),
            v(1, Inner), v(1, Forward), v(2, Left), v(1, Forward), v(2, Left), v(2, Right),
        ]
    );
    let right = chain_layout(3, &vec![Joint::TurnRight]);
    assert_eq!(right.len(), 18);
    assert_eq!(&right[2..6], &[v(1, Back), v(0, Right), v(1, Back), v(1, Inner)]);
    assert_eq!(&right[12..14], &[v(1, Forward), v(1, Inner)]);
}

#[test]
fn chain_size_counts_turns() {
    let joints = vec![Joint::TurnLeft, Joint::Straight, Joint::TurnRight, Joint::Straight];
    let layout = chain_layout(6, &joints);
    assert_eq!(layout.len(), 6 * 5 + 6 * 2);
    assert!(layout.iter().all(|c| c.point < 6));
}
