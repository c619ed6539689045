use std::sync::Arc;

use jira::ioc::{resolve, Ioc, Registry, ServiceCache, ServiceFactory};

const MY_SERVICE: u64 = 1;
const MY_SERVICE_WITH_DEPENDENCY: u64 = 2;

struct MyRealService;

impl MyRealService {
    fn hello(&self) -> &'static str {
        "hello"
    }
}

struct MyRealServiceWithDependency {
    dependency: Arc<MyRealService>,
}

impl MyRealServiceWithDependency {
    fn hello(&self) -> &'static str {
        self.dependency.hello()
    }
}

#[derive(Clone)]
enum Service {
    Plain(Arc<MyRealService>),
    WithDependency(Arc<MyRealServiceWithDependency>),
}

enum Factory {
    Plain,
    WithDependency,
}

impl ServiceFactory<Service> for Factory {
    fn build(&self, registry: &Registry<Self>, cache: &mut ServiceCache<Service>) -> Service {
        match self {
            Factory::Plain => Service::Plain(Arc::new(MyRealService)),
            Factory::WithDependency => {
                let dependency = match resolve(registry, cache, MY_SERVICE) {
                    Some(Service::Plain(s)) => s,
                    _ => panic!("service not registered: MyServiceInterface"),
                };
                Service::WithDependency(Arc::new(MyRealServiceWithDependency { dependency }))
            }
        }
    }
}

fn plain(ioc: &mut Ioc<Factory, Service>) -> Arc<MyRealService> {
    match ioc.get(MY_SERVICE) {
        Some(Service::Plain(s)) => s,
        _ => panic!("service not registered: MyServiceInterface"),
    }
}

#[test]
fn a_new_ioc_doesnt_contain_any_service() {
    let ioc: Ioc<Factory, Service> = Ioc::new();

    assert!(ioc.is_empty());
}

#[test]
fn registering_a_service_factory_resolves_service() {
    let mut ioc: Ioc<Factory, Service> = Ioc::new();

    ioc.register(MY_SERVICE, Factory::Plain);

    assert!(
        !ioc.is_empty(),
        "registered factories should make the container non-empty"
    );

    let service = plain(&mut ioc);

    assert_eq!(service.hello(), "hello");
}

#[test]
fn resolving_a_service_multiple_times_reuses_the_cached_instance() {
    let mut ioc: Ioc<Factory, Service> = Ioc::new();

    ioc.register(MY_SERVICE, Factory::Plain);

    let first = plain(&mut ioc);
    let second = plain(&mut ioc);

    assert!(
        Arc::ptr_eq(&first, &second),
        "lazy resolution should cache the constructed service instance"
    );
}

#[test]
fn resolving_a_service_with_dependencies_works_even_when_registered_first() {
    let mut ioc: Ioc<Factory, Service> = Ioc::new();

    ioc.register(MY_SERVICE_WITH_DEPENDENCY, Factory::WithDependency);
    ioc.register(MY_SERVICE, Factory::Plain);

    let service = match ioc.get(MY_SERVICE_WITH_DEPENDENCY) {
        Some(Service::WithDependency(s)) => s,
        _ => panic!("service not registered: MyServiceWithDependencyInterface"),
    };

    assert_eq!(service.hello(), "hello");
}

#[test]
fn resolving_an_unregistered_key_gives_none() {
    let mut ioc: Ioc<Factory, Service> = Ioc::new();
    ioc.register(MY_SERVICE, Factory::Plain);

    assert!(ioc.get(MY_SERVICE_WITH_DEPENDENCY).is_none());
}

#[test]
fn the_dependency_built_on_the_way_is_cached_too() {
    let mut ioc: Ioc<Factory, Service> = Ioc::new();
    ioc.register(MY_SERVICE_WITH_DEPENDENCY, Factory::WithDependency);
    ioc.register(MY_SERVICE, Factory::Plain);

    let with_dependency = match ioc.get(MY_SERVICE_WITH_DEPENDENCY) {
        Some(Service::WithDependency(s)) => s,
        _ => panic!("service not registered"),
    };
    let dependency = plain(&mut ioc);

    assert!(Arc::ptr_eq(&with_dependency.dependency, &dependency));
}

#[test]
fn registering_again_replaces_the_factory_but_keeps_built_services() {
    let mut ioc: Ioc<Factory, Service> = Ioc::new();
    ioc.register(MY_SERVICE, Factory::Plain);
    let first = plain(&mut ioc);

    ioc.register(MY_SERVICE, Factory::Plain);
    let second = plain(&mut ioc);

    assert!(Arc::ptr_eq(&first, &second));
}
