use placement_center::http_routes::{
    path_create, path_delete, path_list, path_update, v1_path, ROUTE_ADD_LEARNER, ROUTE_INIT,
    ROUTE_ROOT,
};

#[test]
fn admin_paths() {
    assert_eq!(v1_path(ROUTE_ADD_LEARNER), "/v1/add-learner");
    assert_eq!(v1_path(ROUTE_INIT), "/v1/init");
    assert_eq!(v1_path(&path_list(ROUTE_ROOT)), "/v1/index/list");
    assert_eq!(path_create("/node"), "/node/create");
    assert_eq!(path_update("/node"), "/node/update");
    assert_eq!(path_delete("/node"), "/node/delete");
}
