//! Registro de crowdfunding en un libro mayor: proyectos con nombre acotado
//! que acumulan aportes monetarios como saldos crecientes.

pub mod cuentas;
pub mod pallet;
pub mod tabla;
