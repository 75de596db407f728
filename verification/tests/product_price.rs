use std::cell::RefCell;

use ecommerce_core::adapter::sql_db::{
    acquire_failure, check_server_type, plan_pool, AppDbServerCfg, AppDbServerType, DbSecret,
};
use ecommerce_core::constant::ProductType;
use ecommerce_core::datastore::{AppInMemFetchKeys, AppInMemFetchedData, AppInMemRow, AppInMemUpdateData};
use ecommerce_core::error::{AppError, AppErrorCode};
use ecommerce_core::model::product_price::{ProductPriceModel, ProductPriceModelSet};
use ecommerce_core::repository::product_price::{
    parse_price_row, price_key, prices_from_fetched, rows_to_save, AbstInMemoryDStore,
    ProductPriceInMemRepo, TABLE_LABEL, TOT_NUM_COLUMNS,
};
use ecommerce_core::time::Timestamp;

fn ut_time(s: &str) -> Timestamp {
    Timestamp::parse_rfc3339(s).unwrap()
}

struct MockInMemDataStore {
    tables: RefCell<Vec<(String, Vec<AppInMemRow>)>>,
    asked: RefCell<Vec<AppInMemFetchKeys>>,
}

impl MockInMemDataStore {
    fn new() -> Self {
        Self { tables: RefCell::new(vec![]), asked: RefCell::new(vec![]) }
    }
}

impl AbstInMemoryDStore for &MockInMemDataStore {
    fn fetch(&self, info: AppInMemFetchKeys) -> Result<AppInMemFetchedData, AppError> {
        self.asked.borrow_mut().push(info.clone());
        let tables = self.tables.borrow();
        let out = info
            .into_iter()
            .map(|(label, keys)| {
                let rows = tables
                    .iter()
                    .filter(|t| t.0 == label)
                    .flat_map(|t| t.1.iter())
                    .filter(|r| keys.contains(&r.0))
                    .cloned()
                    .collect();
                (label, rows)
            })
            .collect();
        Ok(out)
    }
    fn save(&self, data: AppInMemUpdateData) -> Result<usize, AppError> {
        let mut num = 0;
        let mut tables = self.tables.borrow_mut();
        for (label, rows) in data {
            let t = tables.iter_mut().find(|t| t.0 == label);
            let t = match t {
                Some(t) => t,
                None => return Err(AppError { code: AppErrorCode::DataTableNotExist, detail: Some(label) }),
            };
            for row in rows {
                t.1.retain(|r| r.0 != row.0);
                t.1.push(row);
                num += 1;
            }
        }
        Ok(num)
    }
    fn create_table(&self, label: &str) -> Result<(), AppError> {
        self.tables.borrow_mut().push((label.to_string(), vec![]));
        Ok(())
    }
}

struct MockInMemDeadDataStore {}

impl AbstInMemoryDStore for MockInMemDeadDataStore {
    fn fetch(&self, _info: AppInMemFetchKeys) -> Result<AppInMemFetchedData, AppError> {
        Err(AppError { code: AppErrorCode::AcquireLockFailure, detail: Some(format!("utest")) })
    }
    fn create_table(&self, _label: &str) -> Result<(), AppError> {
        Ok(())
    }
    fn save(&self, _data: AppInMemUpdateData) -> Result<usize, AppError> {
        Err(AppError { code: AppErrorCode::DataTableNotExist, detail: Some(format!("utest")) })
    }
}

fn ut_pprice_data() -> Vec<ProductPriceModel> {
    let item = |product_type, product_id, price, start_after: &str, end_before: &str| ProductPriceModel {
        is_create: true,
        product_type,
        product_id,
        price,
        start_after: ut_time(start_after),
        end_before: ut_time(end_before),
    };
    vec![
        item(ProductType::Item, 1001, 87, "2023-09-09T09:12:53.001985+08:00", "2023-10-06T09:00:30.10301+08:00"),
        item(ProductType::Package, 1002, 94, "2023-09-09T09:13:54+07:00", "2023-10-07T09:01:30+06:00"),
        item(ProductType::Item, 1003, 28, "2023-07-31T10:16:54+05:00", "2023-10-10T09:01:31+02:00"),
    ]
}

#[test]
fn price_repo_saves_and_fetches() {
    let store = MockInMemDataStore::new();
    let repo = ProductPriceInMemRepo::_new(Some(&store)).unwrap();
    assert_eq!(store.tables.borrow()[0].0, "product_price");
    let ppset = ProductPriceModelSet { store_id: 123, items: ut_pprice_data() };
    assert!(repo.save(ppset).is_ok());
    {
        let tables = store.tables.borrow();
        let rows = &tables[0].1;
        assert_eq!(rows.len(), 3);
        assert_eq!(rows[0].0, "123-1-1001");
        assert_eq!(
            rows[0].1,
            vec!["87", "2023-09-09T09:12:53.001985+08:00", "2023-10-06T09:00:30.103010+08:00", "1001", "1"]
        );
        assert_eq!(rows[1].0, "123-2-1002");
        assert_eq!(rows[1].1.len(), TOT_NUM_COLUMNS);
    }
    let fetched = repo.fetch(123, vec![(2, 1002), (1, 1003), (1, 4444)]).unwrap();
    assert_eq!(fetched.store_id, 123);
    assert_eq!(fetched.items.len(), 2);
    let expect = ut_pprice_data();
    assert_eq!(fetched.items[0], ProductPriceModel { is_create: false, ..expect[1] });
    assert_eq!(fetched.items[1], ProductPriceModel { is_create: false, ..expect[2] });
    assert_eq!(
        store.asked.borrow()[0],
        vec![(
            "product_price".to_string(),
            vec!["123-2-1002".to_string(), "123-1-1003".to_string(), "123-1-4444".to_string()]
        )]
    );
    assert!(repo.delete_all(123).is_ok());
    assert!(repo.delete(123, vec![(1, 1001)]).is_ok());
    assert_eq!(repo.fetch(123, vec![(1, 1001)]).unwrap().items.len(), 1);
}

#[test]
fn price_repo_refuses_empty_input() {
    let store = MockInMemDataStore::new();
    let repo = ProductPriceInMemRepo::_new(Some(&store)).unwrap();
    let e = repo.save(ProductPriceModelSet { store_id: 0, items: ut_pprice_data() }).err().unwrap();
    assert_eq!(e.code, AppErrorCode::EmptyInputData);
    assert_eq!(e.detail.unwrap(), "save ProductPriceModel");
    let e = repo.save(ProductPriceModelSet { store_id: 123, items: vec![] }).err().unwrap();
    assert_eq!(e.code, AppErrorCode::EmptyInputData);
    assert!(store.tables.borrow()[0].1.is_empty());
    let mut items = ut_pprice_data();
    items[1].end_before = Timestamp::new(i64::MAX, 0, 0);
    let e = rows_to_save(&ProductPriceModelSet { store_id: 123, items }).err().unwrap();
    assert_eq!(e.code, AppErrorCode::InvalidInput);
}

#[test]
fn price_repo_hands_on_errors_of_the_store() {
    let e = ProductPriceInMemRepo::<MockInMemDeadDataStore>::_new(None).err().unwrap();
    assert_eq!(e.code, AppErrorCode::MissingDataStore);
    assert_eq!(e.detail.unwrap(), "in-memory");
    let repo = ProductPriceInMemRepo::_new(Some(MockInMemDeadDataStore {})).unwrap();
    let e = repo.fetch(123, vec![(1, 1001)]).err().unwrap();
    assert_eq!(e.code, AppErrorCode::AcquireLockFailure);
    let e = repo.save(ProductPriceModelSet { store_id: 123, items: ut_pprice_data() }).err().unwrap();
    assert_eq!(e.code, AppErrorCode::DataTableNotExist);
    let keys = repo.gen_id_keys(9, vec![(1, 2), (255, u64::MAX)]);
    assert_eq!(
        keys,
        vec![("product_price".to_string(), vec!["9-1-2".to_string(), "9-255-18446744073709551615".to_string()])]
    );
    assert_eq!(price_key(0, 0, 0), "0-0-0");
    assert_eq!(TABLE_LABEL, "product_price");
}

#[test]
fn price_rows_that_are_badly_written_are_refused() {
    let row = |cols: [&str; 5]| -> Vec<String> { cols.iter().map(|c| c.to_string()).collect() };
    let good = row(["87", "2023-09-09T09:12:53+08:00", "2023-10-06T09:00:30+08:00", "1001", "1"]);
    let m = parse_price_row(&good).unwrap();
    assert_eq!((m.price, m.product_id, m.product_type, m.is_create), (87, 1001, ProductType::Item, false));
    assert_eq!(m.start_after, ut_time("2023-09-09T09:12:53+08:00"));
    for bad in [
        row(["", "2023-09-09T09:12:53+08:00", "2023-10-06T09:00:30+08:00", "1001", "1"]),
        row(["4294967296", "2023-09-09T09:12:53+08:00", "2023-10-06T09:00:30+08:00", "1001", "1"]),
        row(["87", "soon", "2023-10-06T09:00:30+08:00", "1001", "1"]),
        row(["87", "2023-09-09T09:12:53+08:00", "", "1001", "1"]),
        row(["87", "2023-09-09T09:12:53+08:00", "2023-10-06T09:00:30+08:00", "x", "1"]),
        row(["87", "2023-09-09T09:12:53+08:00", "2023-10-06T09:00:30+08:00", "1001", "256"]),
    ] {
        assert!(parse_price_row(&bad).is_none());
        let fetched = vec![("product_price".to_string(), vec![("k".to_string(), bad)])];
        let e = prices_from_fetched(5, &fetched).err().unwrap();
        assert_eq!(e.code, AppErrorCode::DataCorruption);
    }
    assert!(parse_price_row(&good[0..4].to_vec()).is_none());
    let other = vec![("other".to_string(), vec![("k".to_string(), vec![])])];
    assert!(prices_from_fetched(5, &other).unwrap().items.is_empty());
    assert!(prices_from_fetched(5, &vec![]).unwrap().items.is_empty());
    let both = vec![other[0].clone(), ("product_price".to_string(), vec![("k".to_string(), good)])];
    assert_eq!(prices_from_fetched(5, &both).unwrap().items.len(), 1);
}

fn ut_db_cfg(srv_type: AppDbServerType) -> AppDbServerCfg {
    AppDbServerCfg {
        alias: "db-order".to_string(),
        srv_type,
        max_conns: 15,
        acquire_timeout_secs: 7,
        idle_timeout_secs: 600,
        confidentiality_path: "backend_apps/databases/order_service".to_string(),
        db_name: "ecommerce_order".to_string(),
    }
}

#[test]
fn database_settings_are_checked_and_planned() {
    assert!(check_server_type(&ut_db_cfg(AppDbServerType::MariaDB)).is_ok());
    let e = check_server_type(&ut_db_cfg(AppDbServerType::PostgreSQL)).err().unwrap();
    assert_eq!(e.code, AppErrorCode::InvalidInput);
    assert_eq!(e.detail.unwrap(), "db-cfg-server-type: PostgreSQL");
    let secret = DbSecret {
        host: "db.local".to_string(),
        port: 3306,
        user: "app".to_string(),
        password: "not-a-real-password".to_string(),
    };
    let plan = plan_pool(&ut_db_cfg(AppDbServerType::MariaDB), Ok(secret)).unwrap();
    assert_eq!((plan.alias.as_str(), plan.host.as_str(), plan.port), ("db-order", "db.local", 3306));
    assert_eq!((plan.username.as_str(), plan.database.as_str()), ("app", "ecommerce_order"));
    assert_eq!((plan.max_connections, plan.min_connections), (15, 0));
    assert_eq!((plan.idle_timeout_secs, plan.acquire_timeout_secs), (600, 7));
    let e = plan_pool(&ut_db_cfg(AppDbServerType::MariaDB), Err("missing field `HOST`".to_string())).err().unwrap();
    assert_eq!(e.code, AppErrorCode::InvalidJsonFormat);
    assert_eq!(e.detail.unwrap(), "missing field `HOST`, secret-parsing-error, source: AppMariaDbStore");
    let e = acquire_failure("pool timed out".to_string());
    assert_eq!(e.code, AppErrorCode::RemoteDbServerFailure);
    assert_eq!(e.detail.unwrap(), "pool timed out");
}
