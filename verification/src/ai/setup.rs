//! The built-in knowledge base of background entries on software
//! engineering topics, as (identifier, text) pairs.
use vstd::prelude::*;

verus! {

/// Text of the built-in entry `arch-001`.
pub const ARCH_001: &'static str = "La arquitectura de microservicios divide una aplicación en servicios pequeños e independientes, \
          cada uno con su propia base de datos y desplegado por separado. \
          Se comunican via REST, gRPC o mensajería asíncrona (Kafka, RabbitMQ). \
          Ventajas: escalabilidad independiente, deploys frecuentes, fault isolation. \
          Desventajas: complejidad operacional, consistencia eventual, latencia de red.";

/// Text of the built-in entry `arch-002`.
pub const ARCH_002: &'static str = "El patrón CQRS (Command Query Responsibility Segregation) separa las operaciones de lectura \
          y escritura en modelos distintos. Los commands modifican estado, las queries solo leen. \
          Se combina frecuentemente con Event Sourcing para mantener el historial completo de cambios. \
          Útil cuando las necesidades de lectura y escritura tienen cargas muy distintas.";

/// Text of the built-in entry `arch-003`.
pub const ARCH_003: &'static str = "Domain-Driven Design (DDD) organiza el código alrededor del dominio de negocio. \
          Conceptos clave: Bounded Context (límite explícito de un dominio), \
          Aggregate (raíz que garantiza consistencia), \
          Value Object (inmutable, sin identidad), Entity (tiene identidad propia), \
          Domain Event (algo que ocurrió en el dominio).";

/// Text of the built-in entry `arch-004`.
pub const ARCH_004: &'static str = "El patrón Saga maneja transacciones distribuidas entre microservicios. \
          Coreografía: cada servicio reacciona a eventos y emite los suyos. \
          Orquestación: un servicio central coordina el flujo. \
          Ante un fallo se ejecutan compensating transactions para revertir los pasos anteriores.";

/// Text of the built-in entry `db-001`.
pub const DB_001: &'static str = "Los índices en bases de datos relacionales aceleran las queries pero tienen costo en escrituras. \
          B-Tree index: óptimo para rangos y equality. \
          Hash index: solo equality, más rápido para ese caso. \
          Composite index: el orden de las columnas importa, debe coincidir con el orden del WHERE/ORDER BY. \
          Un query sin índice hace full table scan — crítico en tablas grandes.";

/// Text of the built-in entry `db-002`.
pub const DB_002: &'static str = "Las propiedades ACID garantizan integridad en bases de datos relacionales: \
          Atomicity (todo o nada), Consistency (el estado siempre es válido), \
          Isolation (las transacciones no se interfieren), Durability (los cambios persisten). \
          Las bases NoSQL suelen relajar estas propiedades a cambio de escalabilidad horizontal (BASE: Basically Available, Soft state, Eventually consistent).";

/// Text of the built-in entry `db-003`.
pub const DB_003: &'static str = "PostgreSQL features relevantes para backend: \
          JSONB para datos semiestructurados con índices GIN, \
          CTEs (WITH queries) para queries complejas y recursivas, \
          Window functions para analíticas sin GROUP BY, \
          Partitioning para tablas muy grandes, \
          LISTEN/NOTIFY para pub-sub liviano entre servicios.";

/// Text of the built-in entry `api-001`.
pub const API_001: &'static str = "REST best practices: usar sustantivos en los endpoints (/orders, no /getOrders), \
          HTTP verbs semánticamente correctos (GET idempotente, POST crea, PUT reemplaza, PATCH modifica parcialmente), \
          status codes correctos (201 Created, 400 Bad Request, 409 Conflict, 422 Unprocessable Entity), \
          versionado en la URL (/v1/) o en headers, \
          paginación con cursor o offset+limit.";

/// Text of the built-in entry `api-002`.
pub const API_002: &'static str = "gRPC usa Protocol Buffers como formato de serialización — más eficiente que JSON. \
          Soporta streaming bidireccional, ideal para comunicación inter-servicios. \
          Genera código cliente/servidor desde el .proto. \
          Desventaja: menos legible que REST, requiere tooling específico. \
          Útil cuando la latencia y el throughput son críticos entre servicios internos.";

/// Text of the built-in entry `concurrency-001`.
pub const CONCURRENCY_001: &'static str = "Los problemas clásicos de concurrencia son: \
          Race condition (dos threads acceden al mismo dato sin sincronización), \
          Deadlock (dos threads se esperan mutuamente), \
          Starvation (un thread nunca obtiene el recurso). \
          En Rust, el ownership system previene race conditions en compile time. \
          En otros lenguajes se usan Mutex, RWLock, canales o estructuras lock-free.";

/// Text of the built-in entry `concurrency-002`.
pub const CONCURRENCY_002: &'static str = "El modelo async/await permite concurrencia sin threads del OS. \
          Un runtime (Tokio en Rust, asyncio en Python, libuv en Node) multiplexa tasks en un thread pool. \
          Ideal para I/O-bound workloads (HTTP, DB, files). \
          Para CPU-bound hay que spawnear threads separados para no bloquear el runtime. \
          El costo es la complejidad: futuros, lifetimes, Send/Sync bounds.";

/// Text of the built-in entry `infra-001`.
pub const INFRA_001: &'static str = "Docker empaqueta una aplicación con todas sus dependencias en una imagen reproducible. \
          Docker Compose orquesta múltiples contenedores localmente (app, db, cache, broker). \
          En producción se usa Kubernetes para orquestación, scaling automático, \
          health checks, rolling deploys y service discovery. \
          Las imágenes deben ser lo más pequeñas posible: multi-stage builds, base alpine.";

/// Text of the built-in entry `infra-002`.
pub const INFRA_002: &'static str = "CI/CD automatiza el camino del código al deploy. \
          CI: cada push corre tests, linting y build. \
          CD: si CI pasa, se despliega automáticamente a staging o producción. \
          Estrategias de deploy: Blue/Green (dos entornos, se switchea el tráfico), \
          Canary (se manda un porcentaje del tráfico a la nueva versión), \
          Rolling (se reemplazan las instancias de a una).";

/// Text of the built-in entry `perf-001`.
pub const PERF_001: &'static str = "Caching reduce latencia y carga en la DB. \
          Cache-aside: la app primero busca en cache, si hay miss busca en DB y popula el cache. \
          Write-through: se escribe en cache y DB simultáneamente. \
          TTL define cuánto tiempo vive un valor en cache. \
          Redis es el estándar: soporta strings, hashes, sorted sets, pub-sub y persistencia opcional.";

/// Text of the built-in entry `perf-002`.
pub const PERF_002: &'static str = "El N+1 problem ocurre cuando se hace una query para obtener N registros \
          y luego N queries más para obtener sus relaciones. \
          Se soluciona con eager loading (JOIN o includes), \
          DataLoader pattern (batching de queries), \
          o desnormalización estratégica. \
          Es uno de los problemas de performance más comunes en backends con ORM.";

/// The identifiers of the built-in entries, in order.
pub open spec fn builtin_ids() -> Seq<Seq<char>> {
    seq![
        "arch-001"@,
        "arch-002"@,
        "arch-003"@,
        "arch-004"@,
        "db-001"@,
        "db-002"@,
        "db-003"@,
        "api-001"@,
        "api-002"@,
        "concurrency-001"@,
        "concurrency-002"@,
        "infra-001"@,
        "infra-002"@,
        "perf-001"@,
        "perf-002"@
    ]
}

/// The texts of the built-in entries, in the order of their identifiers.
pub open spec fn builtin_texts() -> Seq<Seq<char>> {
    seq![
        ARCH_001@,
        ARCH_002@,
        ARCH_003@,
        ARCH_004@,
        DB_001@,
        DB_002@,
        DB_003@,
        API_001@,
        API_002@,
        CONCURRENCY_001@,
        CONCURRENCY_002@,
        INFRA_001@,
        INFRA_002@,
        PERF_001@,
        PERF_002@
    ]
}

/// The identifier of each entry.
pub open spec fn entry_ids(entries: Seq<(&'static str, &'static str)>) -> Seq<Seq<char>> {
    entries.map_values(|e: (&'static str, &'static str)| e.0@)
}

/// The text of each entry.
pub open spec fn entry_texts(entries: Seq<(&'static str, &'static str)>) -> Seq<Seq<char>> {
    entries.map_values(|e: (&'static str, &'static str)| e.1@)
}

/// Every built-in entry has some text.
pub proof fn lemma_builtin_texts_non_empty()
    ensures
        forall|i: int| 0 <= i < builtin_texts().len() ==> #[trigger] builtin_texts()[i].len() > 0,
{
    reveal_strlit("La arquitectura de microservicios divide una aplicación en servicios pequeños e independientes, \
          cada uno con su propia base de datos y desplegado por separado. \
          Se comunican via REST, gRPC o mensajería asíncrona (Kafka, RabbitMQ). \
          Ventajas: escalabilidad independiente, deploys frecuentes, fault isolation. \
          Desventajas: complejidad operacional, consistencia eventual, latencia de red.");
    reveal_strlit("El patrón CQRS (Command Query Responsibility Segregation) separa las operaciones de lectura \
          y escritura en modelos distintos. Los commands modifican estado, las queries solo leen. \
          Se combina frecuentemente con Event Sourcing para mantener el historial completo de cambios. \
          Útil cuando las necesidades de lectura y escritura tienen cargas muy distintas.");
    reveal_strlit("Domain-Driven Design (DDD) organiza el código alrededor del dominio de negocio. \
          Conceptos clave: Bounded Context (límite explícito de un dominio), \
          Aggregate (raíz que garantiza consistencia), \
          Value Object (inmutable, sin identidad), Entity (tiene identidad propia), \
          Domain Event (algo que ocurrió en el dominio).");
    reveal_strlit("El patrón Saga maneja transacciones distribuidas entre microservicios. \
          Coreografía: cada servicio reacciona a eventos y emite los suyos. \
          Orquestación: un servicio central coordina el flujo. \
          Ante un fallo se ejecutan compensating transactions para revertir los pasos anteriores.");
    reveal_strlit("Los índices en bases de datos relacionales aceleran las queries pero tienen costo en escrituras. \
          B-Tree index: óptimo para rangos y equality. \
          Hash index: solo equality, más rápido para ese caso. \
          Composite index: el orden de las columnas importa, debe coincidir con el orden del WHERE/ORDER BY. \
          Un query sin índice hace full table scan — crítico en tablas grandes.");
    reveal_strlit("Las propiedades ACID garantizan integridad en bases de datos relacionales: \
          Atomicity (todo o nada), Consistency (el estado siempre es válido), \
          Isolation (las transacciones no se interfieren), Durability (los cambios persisten). \
          Las bases NoSQL suelen relajar estas propiedades a cambio de escalabilidad horizontal (BASE: Basically Available, Soft state, Eventually consistent).");
    reveal_strlit("PostgreSQL features relevantes para backend: \
          JSONB para datos semiestructurados con índices GIN, \
          CTEs (WITH queries) para queries complejas y recursivas, \
          Window functions para analíticas sin GROUP BY, \
          Partitioning para tablas muy grandes, \
          LISTEN/NOTIFY para pub-sub liviano entre servicios.");
    reveal_strlit("REST best practices: usar sustantivos en los endpoints (/orders, no /getOrders), \
          HTTP verbs semánticamente correctos (GET idempotente, POST crea, PUT reemplaza, PATCH modifica parcialmente), \
          status codes correctos (201 Created, 400 Bad Request, 409 Conflict, 422 Unprocessable Entity), \
          versionado en la URL (/v1/) o en headers, \
          paginación con cursor o offset+limit.");
    reveal_strlit("gRPC usa Protocol Buffers como formato de serialización — más eficiente que JSON. \
          Soporta streaming bidireccional, ideal para comunicación inter-servicios. \
          Genera código cliente/servidor desde el .proto. \
          Desventaja: menos legible que REST, requiere tooling específico. \
          Útil cuando la latencia y el throughput son críticos entre servicios internos.");
    reveal_strlit("Los problemas clásicos de concurrencia son: \
          Race condition (dos threads acceden al mismo dato sin sincronización), \
          Deadlock (dos threads se esperan mutuamente), \
          Starvation (un thread nunca obtiene el recurso). \
          En Rust, el ownership system previene race conditions en compile time. \
          En otros lenguajes se usan Mutex, RWLock, canales o estructuras lock-free.");
    reveal_strlit("El modelo async/await permite concurrencia sin threads del OS. \
          Un runtime (Tokio en Rust, asyncio en Python, libuv en Node) multiplexa tasks en un thread pool. \
          Ideal para I/O-bound workloads (HTTP, DB, files). \
          Para CPU-bound hay que spawnear threads separados para no bloquear el runtime. \
          El costo es la complejidad: futuros, lifetimes, Send/Sync bounds.");
    reveal_strlit("Docker empaqueta una aplicación con todas sus dependencias en una imagen reproducible. \
          Docker Compose orquesta múltiples contenedores localmente (app, db, cache, broker). \
          En producción se usa Kubernetes para orquestación, scaling automático, \
          health checks, rolling deploys y service discovery. \
          Las imágenes deben ser lo más pequeñas posible: multi-stage builds, base alpine.");
    reveal_strlit("CI/CD automatiza el camino del código al deploy. \
          CI: cada push corre tests, linting y build. \
          CD: si CI pasa, se despliega automáticamente a staging o producción. \
          Estrategias de deploy: Blue/Green (dos entornos, se switchea el tráfico), \
          Canary (se manda un porcentaje del tráfico a la nueva versión), \
          Rolling (se reemplazan las instancias de a una).");
    reveal_strlit("Caching reduce latencia y carga en la DB. \
          Cache-aside: la app primero busca en cache, si hay miss busca en DB y popula el cache. \
          Write-through: se escribe en cache y DB simultáneamente. \
          TTL define cuánto tiempo vive un valor en cache. \
          Redis es el estándar: soporta strings, hashes, sorted sets, pub-sub y persistencia opcional.");
    reveal_strlit("El N+1 problem ocurre cuando se hace una query para obtener N registros \
          y luego N queries más para obtener sus relaciones. \
          Se soluciona con eager loading (JOIN o includes), \
          DataLoader pattern (batching de queries), \
          o desnormalización estratégica. \
          Es uno de los problemas de performance más comunes en backends con ORM.");
}

/// The built-in background entries, as (identifier, text) pairs, in order.
pub fn context_chunks() -> (r: Vec<(&'static str, &'static str)>)
    ensures
        entry_ids(r@) == builtin_ids(),
        entry_texts(r@) == builtin_texts(),
{
    let r = vec![
        ("arch-001", ARCH_001),
        ("arch-002", ARCH_002),
        ("arch-003", ARCH_003),
        ("arch-004", ARCH_004),
        ("db-001", DB_001),
        ("db-002", DB_002),
        ("db-003", DB_003),
        ("api-001", API_001),
        ("api-002", API_002),
        ("concurrency-001", CONCURRENCY_001),
        ("concurrency-002", CONCURRENCY_002),
        ("infra-001", INFRA_001),
        ("infra-002", INFRA_002),
        ("perf-001", PERF_001),
        ("perf-002", PERF_002),
    ];
    assert(entry_ids(r@) =~= builtin_ids());
    assert(entry_texts(r@) =~= builtin_texts());
    r
}

} // verus!
