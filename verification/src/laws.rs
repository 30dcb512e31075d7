//! What holds of the contract as a whole, whatever is called in which order.
//!
//! [`calls`] gathers the calls into one type and [`changes`] sums up what each
//! of them changes. On these rest the laws: the records fit together
//! ([`consistency`]), the contract can pay what it owes ([`solvency`], with
//! [`sums`]), both in every state that calls can lead to ([`reachable`]); what
//! escrows and disputes can become ([`history`]), what the admin can do
//! ([`governance`]), who agrees to what ([`agreements`]), who sits on a jury
//! ([`juries`]), what fees, slashes and reputation amount to ([`amounts`]), who
//! is paid and what is announced ([`effects`]), and that nothing stays locked
//! ([`progress`]).
//!
//! Call by call, the laws also say when it goes through, with which error it is
//! refused and what it leaves behind, on the records themselves: for the admin
//! ([`settings`]), unfunded escrows ([`proposals`]), funded ones ([`releases`]),
//! jurors and open disputes ([`trials`]) and decisions ([`verdicts`]). [`values`]
//! fixes the words they use. [`store`] and [`queries`] carry all of it over to
//! the executable contract.

pub mod agreements;
pub mod amounts;
pub mod calls;
pub mod changes;
pub mod consistency;
pub mod effects;
pub mod governance;
pub mod history;
pub mod juries;
pub mod progress;
pub mod proposals;
pub mod queries;
pub mod reachable;
pub mod releases;
pub mod settings;
pub mod solvency;
pub mod store;
pub mod sums;
pub mod trials;
pub mod values;
pub mod verdicts;
