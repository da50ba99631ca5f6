#[test]
fn it_works() {
    let result = todo_list::add(2, 2);
    assert_eq!(result, 4);
}
