//! Services reached through the Cloudflare AI gateway.

pub mod v1;
