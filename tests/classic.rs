use conway::classic::{alive, count_surrounding, glider, infinite1, life_from_flags, life_next, life_random};

fn live(v: &Vec<Vec<bool>>) -> Vec<(usize, usize)> {
    let mut out = vec![];
    for (i, row) in v.iter().enumerate() {
        for (j, &b) in row.iter().enumerate() {
            if b {
                out.push((i, j));
            }
        }
    }
    out
}

#[test]
fn random_fill_is_square() {
    let v = life_random(6);
    assert_eq!(v.len(), 6);
    assert!(v.iter().all(|r| r.len() == 6));
}

#[test]
fn classic_glider_and_infinite() {
    let g = glider(20);
    assert_eq!(live(&g), vec![(10, 11), (11, 12), (12, 10), (12, 11), (12, 12)]);
    let v = infinite1(20);
    assert_eq!(live(&v).len(), 13);
    assert!(v[15][15] && v[11][11] && !v[11][14]);
}

#[test]
fn classic_counts_and_fates() {
    let g = glider(20);
    assert_eq!(count_surrounding(11, 11, &g), 5);
    assert_eq!(count_surrounding(0, 0, &g), 0);
    assert!(alive(12, 12, &g));
    assert!(!alive(10, 11, &g));
    assert!(alive(11, 10, &g));
}

#[test]
fn classic_next_generation() {
    let g = life_next(glider(20));
    assert_eq!(live(&g), vec![(11, 10), (11, 12), (12, 11), (12, 12), (13, 11)]);
    // Wrap-around: a blinker across the corner of a 5 x 5 torus.
    let mut v = vec![vec![false; 5]; 5];
    v[4][0] = true;
    v[0][0] = true;
    v[1][0] = true;
    let w = life_next(v);
    assert_eq!(live(&w), vec![(0, 0), (0, 1), (0, 4)]);
}

#[test]
fn flags_fill_rows_in_order() {
    let v = life_from_flags(2, &vec![true, false, false, true]);
    assert_eq!(v, vec![vec![true, false], vec![false, true]]);
    assert!(life_from_flags(0, &vec![]).is_empty());
}
