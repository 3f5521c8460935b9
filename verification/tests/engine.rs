use kineto::engine::Engine;

#[test]
fn engine_constructs_without_starting_background_runtime() {
    let _engine = Engine::new();
}

#[test]
fn default_engine_is_the_fresh_engine() {
    let _engine = Engine::default();
}
