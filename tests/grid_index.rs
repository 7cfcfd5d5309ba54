use lattelab::derived::{derivative_stencil, Stencil};
use lattelab::grid::{n_from_xyz, wrap, xyz_from_n, Grid};

#[test]
fn index_formula() {
    assert_eq!(n_from_xyz(&1, &2, &3, &4, &5), 69);
    assert_eq!(n_from_xyz(&0, &0, &0, &4, &5), 0);
    assert_eq!(n_from_xyz(&3, &4, &0, &4, &5), 19);
}

#[test]
fn coordinates_of_index() {
    assert_eq!(xyz_from_n(&69, &4, &5), (1, 2, 3));
    assert_eq!(xyz_from_n(&19, &4, &5), (3, 4, 0));
    for n in 0..60usize {
        let (x, y, z) = xyz_from_n(&n, &4, &5);
        assert_eq!(n_from_xyz(&x, &y, &z, &4, &5), n);
    }
}

#[test]
fn periodic_wrap() {
    assert_eq!(wrap(0, -1, 5), 4);
    assert_eq!(wrap(4, 1, 5), 0);
    assert_eq!(wrap(2, 1, 5), 3);
    assert_eq!(wrap(2, -1, 5), 1);
    assert_eq!(wrap(2, 0, 5), 2);
    assert_eq!(wrap(0, 1, 1), 0);
}

#[test]
fn stencils_inside_and_at_faces() {
    let g = Grid { nx: 4, ny: 3, nz: 1 };
    assert_eq!(derivative_stencil(&g, 1, 1, 0, 0), Stencil { lo: 4, hi: 6, span: 2 });
    assert_eq!(derivative_stencil(&g, 0, 1, 0, 0), Stencil { lo: 4, hi: 5, span: 1 });
    assert_eq!(derivative_stencil(&g, 3, 2, 0, 1), Stencil { lo: 7, hi: 11, span: 1 });
    assert_eq!(derivative_stencil(&g, 2, 1, 0, 2), Stencil { lo: 6, hi: 6, span: 0 });
}
