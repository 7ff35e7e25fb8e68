use termtris::app::App;
use termtris::update::update;

#[test]
fn app_lifecycle() {
    let mut app = App::new();
    assert!(!app.should_quit);
    assert!(!app.paused);
    app.pause(true);
    assert!(app.paused);
    app.pause(false);
    assert!(!app.paused);
    app.board.hard_drop().unwrap();
    app.reset();
    assert_eq!(app.board.get_score(), 0);
    assert_eq!(app.board.get_board_size(), (10, 24));
    update(&mut app);
    assert!(!app.should_quit);
    app.quit();
    assert!(app.should_quit);
}

#[test]
fn topping_out_ends_the_session() {
    let mut app = App::new();
    for _ in 0..100_000 {
        if app.should_quit {
            break;
        }
        update(&mut app);
    }
    assert!(app.should_quit);
}
