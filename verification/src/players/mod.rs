pub mod player;
pub mod siimesjarvi;
pub mod pop;
pub mod laurikainen;
pub mod armholt;
pub mod rahtu;
pub mod salonen;
pub mod alvarez;
pub mod moykkynen;
pub mod arola;
pub mod fox;
pub mod karjalainen;
pub mod rantala;
pub mod reponen;
pub mod niemisto;
