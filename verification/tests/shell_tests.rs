use aurorawm::shell::ShellManager;

#[test]
fn toplevel_requests_leave_the_manager_as_it_was() {
    let mut m = ShellManager::new();
    m.handle_toplevel_configure(&7u32, &"maximized");
    m.handle_toplevel_close(&7u32);
}
