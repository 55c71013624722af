use api_rust::controllers::{
    count_users, create_user, get_user_by_email, get_user_by_id, get_users_by_role, list_users, login, register,
    AuthController, UserController,
};
use api_rust::dto::{CreateUserRequestDto, ListUsersQuery, LoginRequestDto, RegisterRequestDto, RoleQuery, UpdateUserRequestDto, UserResponseDto};
use api_rust::errors::AppError;
use api_rust::logging::{
    log_api_ready, log_api_start, log_authentication_failure, log_authorization_failure, log_cache_hit,
    log_database_connection_success, log_endpoint_registered, LogLevel, LoggingMiddleware,
};
use api_rust::role::UserRoleDto;
use api_rust::session::AuthService;
use api_rust::store::{CredentialStore, User};

fn service() -> AuthService {
    AuthService::new("a".to_string(), "r".to_string(), 1, 7).with_hash_cost(4)
}

fn account(id: &str, email: &str, role: UserRoleDto) -> User {
    User {
        id: id.to_string(),
        email: email.to_string(),
        name: id.to_uppercase(),
        password_hash: "digest".to_string(),
        role,
        created_at: 1,
        updated_at: 1,
    }
}

#[test]
fn store_keeps_addresses_and_ids_unique() {
    let mut store = CredentialStore::new();
    assert!(store.insert(account("1", "a@x.io", UserRoleDto::Viewer)).is_ok());
    assert!(store.insert(account("2", "A@X.IO", UserRoleDto::Viewer)).is_err());
    assert!(store.insert(account("1", "b@x.io", UserRoleDto::Viewer)).is_err());
    assert_eq!(store.len(), 1);
    assert_eq!(store.position_of_email("a@X.io"), Some(0));
    assert_eq!(store.position_of_id("1"), Some(0));
    assert_eq!(store.position_of_id("2"), None);
}

#[test]
fn store_lists_pages_and_roles() {
    let mut store = CredentialStore::new();
    for (i, role) in [UserRoleDto::Viewer, UserRoleDto::Admin, UserRoleDto::Viewer, UserRoleDto::Admin].iter().enumerate() {
        let id = format!("{}", i);
        store.insert(account(&id, &format!("{}@x.io", i), *role)).unwrap();
    }
    let ids = |v: Vec<User>| v.into_iter().map(|u| u.id).collect::<Vec<_>>();
    assert_eq!(ids(store.list(None, None)), vec!["0", "1", "2", "3"]);
    assert_eq!(ids(store.list(Some(2), Some(1))), vec!["1", "2"]);
    assert_eq!(ids(store.list(Some(10), Some(3))), vec!["3"]);
    assert_eq!(ids(store.list(None, Some(9))), Vec::<String>::new());
    assert_eq!(ids(store.with_role(UserRoleDto::Admin)), vec!["1", "3"]);
}

#[test]
fn profile_changes_keep_the_role() {
    let mut store = CredentialStore::new();
    store.insert(account("1", "a@x.io", UserRoleDto::Admin)).unwrap();
    store.insert(account("2", "b@x.io", UserRoleDto::Viewer)).unwrap();
    let changed = store.update_profile("2", Some("Bea".to_string()), Some("bea@x.io".to_string()), 9).unwrap().unwrap();
    assert_eq!((changed.name.as_str(), changed.email.as_str(), changed.role, changed.updated_at), ("Bea", "bea@x.io", UserRoleDto::Viewer, 9));
    assert!(store.update_profile("2", None, Some("A@x.io".to_string()), 10).is_err());
    assert!(store.update_profile("3", None, None, 10).unwrap().is_none());
    assert!(store.update_profile("2", None, Some("BEA@x.io".to_string()), 11).is_ok());
    assert!(store.remove("1"));
    assert!(!store.remove("1"));
    assert_eq!(store.len(), 1);
}

#[test]
fn stored_digests_verify_only_their_password() {
    let mut s = service();
    s.register("a@x.io", "secret", "A", None).unwrap();
    let digest = s.users.store.get(0).password_hash;
    assert_ne!(digest, "secret");
    assert!(digest.starts_with("$2b$04$"));
    assert!(s.login("a@x.io", "secret").is_ok());
    assert_eq!(s.login("a@x.io", "Secret").err(), Some(AppError::Unauthorized));
    let mut users = api_rust::users::UserService::new(CredentialStore::new());
    assert_eq!(users.create_user("b@x.io", "pw", "B", None, 3).err(), Some(AppError::Internal));
    assert_eq!(users.count_users(), 0);
    let made = users.create_user("b@x.io", "pw", "B", None, 4).unwrap();
    assert_eq!(made.role, UserRoleDto::Viewer);
    assert_eq!(users.create_user("B@x.io", "pw", "B", None, 4).err(), Some(AppError::Conflict));
}

#[test]
fn routes_compute_their_answers() {
    let mut s = service();
    assert_eq!(AuthController::health(), "Auth API - OK");
    let reg = register(&mut s, RegisterRequestDto { email: "a@x.io".to_string(), password: "pw".to_string(), name: "A".to_string(), role: None }).unwrap();
    assert_eq!(reg.user.role, UserRoleDto::Viewer);
    let boss = register(&mut s, RegisterRequestDto { email: "c@x.io".to_string(), password: "pw".to_string(), name: "C".to_string(), role: Some("ADMIN".to_string()) }).unwrap();
    assert_eq!(boss.user.role, UserRoleDto::Admin);
    assert_eq!(
        register(&mut s, RegisterRequestDto { email: "C@X.io".to_string(), password: "pw".to_string(), name: "C".to_string(), role: None }).err(),
        Some(AppError::Conflict)
    );
    assert!(UserController::delete_user(&mut s, &boss.user.id).is_ok());
    let logged = login(&s, LoginRequestDto { email: "A@x.io".to_string(), password: "pw".to_string() }).unwrap();
    assert_eq!(logged.user.id, reg.user.id);
    assert_eq!(login(&s, LoginRequestDto { email: "a@x.io".to_string(), password: "no".to_string() }).err(), Some(AppError::Unauthorized));
    let created = create_user(
        &mut s,
        CreateUserRequestDto { email: "b@x.io".to_string(), password: "pw".to_string(), name: "B".to_string(), role: Some("Admin".to_string()) },
    )
    .unwrap();
    assert_eq!(created.user.role, UserRoleDto::Admin);
    assert_eq!(created.message, "Usuário criado com sucesso");
    assert_eq!(count_users(&s).count, 2);
    let page = list_users(&s, ListUsersQuery { limit: Some(1), offset: Some(1) });
    assert_eq!((page.total, page.users.len()), (2, 1));
    assert_eq!(page.users[0].email, "b@x.io");
    assert_eq!(get_users_by_role(&s, RoleQuery { role: "ADMIN".to_string() }).len(), 1);
    assert_eq!(get_user_by_id(&s, &created.user.id).unwrap().email, "b@x.io");
    assert_eq!(get_user_by_id(&s, "missing").err(), Some(AppError::NotFound));
    assert_eq!(get_user_by_email(&s, "B@X.IO").unwrap().id, created.user.id);
    let upd = UserController::update_user(&mut s, &created.user.id, UpdateUserRequestDto { name: Some("Bee".to_string()), email: None }).unwrap();
    assert_eq!((upd.user.name.as_str(), upd.user.role), ("Bee", UserRoleDto::Admin));
    assert_eq!(
        UserController::update_user(&mut s, &created.user.id, UpdateUserRequestDto { name: None, email: Some("A@X.IO".to_string()) }).err(),
        Some(AppError::Conflict)
    );
    assert_eq!(UserController::update_user(&mut s, "missing", UpdateUserRequestDto { name: None, email: None }).err(), Some(AppError::NotFound));
    assert_eq!(UserController::delete_user(&mut s, &created.user.id).unwrap(), "Usuário deletado com sucesso");
    assert_eq!(UserController::delete_user(&mut s, &created.user.id).err(), Some(AppError::NotFound));
}

#[test]
fn responses_leave_out_the_digest() {
    let shown = UserResponseDto::from(account("7", "z@x.io", UserRoleDto::Admin));
    assert_eq!((shown.id.as_str(), shown.email.as_str(), shown.name.as_str(), shown.role), ("7", "z@x.io", "7", UserRoleDto::Admin));
}

#[test]
fn log_lines_read_as_before() {
    assert_eq!(log_api_start("Auth API", 3001), "🚀 Auth API iniciando na porta 3001");
    assert_eq!(log_api_ready("Auth API", 0), "✅ Auth API pronta e rodando em http://localhost:0");
    assert_eq!(log_endpoint_registered("GET", "/health"), "📝 Endpoint registrado: GET /health");
    assert_eq!(log_database_connection_success(), "🗄️  Conexão com banco de dados estabelecida com sucesso");
    assert_eq!(log_cache_hit("k"), "💾 Cache HIT: k");
    assert_eq!(log_authentication_failure("a@x.io", "senha"), "🔐 Falha na autenticação para a@x.io: senha");
    assert_eq!(log_authorization_failure("7", "/admin"), "🚫 Acesso negado para usuário 7 ao recurso: /admin");
    assert_eq!(LoggingMiddleware::level_for(204), LogLevel::Info);
    assert_eq!(LoggingMiddleware::level_for(404), LogLevel::Warn);
    assert_eq!(LoggingMiddleware::level_for(503), LogLevel::Error);
    assert_eq!(LoggingMiddleware::request_line("GET", "/a", 200, 12, None), "GET /a 200 - 12ms - User-Agent: Unknown");
    assert_eq!(LoggingMiddleware::request_line("POST", "/b", 401, 0, Some("curl")), "POST /b 401 - 0ms - User-Agent: curl");
}
