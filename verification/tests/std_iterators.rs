struct A(i32);

#[test]
fn test_for() {
    let mut v = vec![1, 2];
    // for mut x in &mut v {
    //     // *x += 1;
    //
    //     for y in &v {
    //         println!("----{}",*x);
    //         // if *x == *y - 1 {
    //         //     *x += *y;
    //         // }
    //     }
    // }

    for x_idx in 0..v.len() {
        for y_idx in 0..v.len() {
            if v[x_idx] == v[y_idx] - 1 {}
        }
    }
}

#[test]
fn test_linq() {
    let a = vec![1, 2, 3, 4, 5];

    // take_while keeps elements while the closure returns true, and stops at the first false
    let collect: Vec<i32> = a.iter().take_while(|x1| **x1 < 3).map(|x2| x2 * 2).collect();
    // [2,4]
    for x in collect {
        println!("-x = {}", x);
    }

    // skip_while skips elements while the closure returns true, then keeps the rest
    let collect: Vec<i32> = a.iter().skip(1).skip_while(|x1| **x1 < 5).map(|x2| *x2).collect();
    // [10]
    for x in collect {
        println!("--x = {}", x);
    }
}
