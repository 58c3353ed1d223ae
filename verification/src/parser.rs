pub mod configure;
pub mod external_config;
pub mod http_configure;
pub mod keyword;
pub mod proxies;
pub mod proxy_groups;
pub mod remote_configure;
pub mod rules;
pub mod share_config;
pub mod upstream;

pub use configure::Configure;
pub use external_config::{ExternalConfig, ExternalConfigSub};
pub use http_configure::HttpServerConfigure;
pub use keyword::Keyword;
pub use proxies::{Proxies, Proxy};
pub use proxy_groups::{ProxyGroup, ProxyGroups};
pub use remote_configure::RemoteConfigure;
pub use rules::Rules;
pub use share_config::{OverridableValue, ShareConfig, UpdateConfigureEvent, UrlConfig};
pub use upstream::UpStream;
