//! A small fixed-table localization helper: two locales, a handful of
//! message keys, and a fallback to the key itself.

use vstd::prelude::*;
use crate::strutil::str_eq;

verus! {

/// What `t` returns for a locale and key: the translation when the table
/// has one, else the key itself.
pub open spec fn translate_spec(locale: Seq<char>, key: Seq<char>) -> Seq<char> {
    if locale == "en-US"@ {
        if key == "error-failed-to-create"@ {
            "Failed to create"@
        } else if key == "error-failed-to-update"@ {
            "Failed to update"@
        } else if key == "error-failed-to-delete"@ {
            "Failed to delete"@
        } else if key == "agent-not-found"@ {
            "Agent not found"@
        } else if key == "agent-not-installed"@ {
            "The coding agent is not installed"@
        } else if key == "relay_adapter.custom_no_test"@ {
            "Custom configuration, connection test skipped"@
        } else if key == "relay_adapter.user_info_not_available"@ {
            "User info not available for this configuration"@
        } else if key == "relay_adapter.usage_logs_not_available"@ {
            "Usage logs not available for this configuration"@
        } else if key == "relay_adapter.token_management_not_available"@ {
            "Token management not available for this configuration"@
        } else if key == "relay_adapter.connection_success"@ {
            "Connection successful"@
        } else if key == "relay_adapter.api_error"@ {
            "API returned error"@
        } else if key == "relay_adapter.parse_error"@ {
            "Failed to parse response"@
        } else if key == "relay_adapter.http_error"@ {
            "HTTP request failed"@
        } else if key == "relay_adapter.network_error"@ {
            "Network connection failed"@
        } else if key == "relay_station.enabled_success"@ {
            "Relay station enabled successfully"@
        } else if key == "relay_station.disabled_success"@ {
            "Relay station disabled successfully"@
        } else {
            key
        }
    } else if locale == "zh-CN"@ {
        if key == "error-failed-to-create"@ {
            "创建失败"@
        } else if key == "error-failed-to-update"@ {
            "更新失败"@
        } else if key == "error-failed-to-delete"@ {
            "删除失败"@
        } else if key == "agent-not-found"@ {
            "未找到智能体"@
        } else if key == "agent-not-installed"@ {
            "未安装编码智能体"@
        } else if key == "relay_adapter.custom_no_test"@ {
            "自定义配置，跳过连接测试"@
        } else if key == "relay_adapter.user_info_not_available"@ {
            "该配置不支持用户信息查询"@
        } else if key == "relay_adapter.usage_logs_not_available"@ {
            "该配置不支持使用日志查询"@
        } else if key == "relay_adapter.token_management_not_available"@ {
            "该配置不支持 Token 管理"@
        } else if key == "relay_adapter.connection_success"@ {
            "连接成功"@
        } else if key == "relay_adapter.api_error"@ {
            "API 返回错误"@
        } else if key == "relay_adapter.parse_error"@ {
            "解析响应失败"@
        } else if key == "relay_adapter.http_error"@ {
            "HTTP 请求失败"@
        } else if key == "relay_adapter.network_error"@ {
            "网络连接失败"@
        } else if key == "relay_station.enabled_success"@ {
            "中转站启用成功"@
        } else if key == "relay_station.disabled_success"@ {
            "中转站禁用成功"@
        } else {
            key
        }
    } else {
        key
    }
}

/// The locales the helper accepts.
pub open spec fn is_supported_locale(locale: Seq<char>) -> bool {
    locale == "en-US"@ || locale == "zh-CN"@
}

/// The fixed-table localization helper, holding the current locale.
#[derive(Debug)]
pub struct SimpleI18n {
    current_locale: String,
}

impl SimpleI18n {
    /// The locale in force.
    pub closed spec fn locale(self) -> Seq<char> {
        self.current_locale@
    }

    /// Starts in US English.
    pub fn new() -> (r: SimpleI18n)
        ensures
            r.locale() == "en-US"@,
    {
        SimpleI18n { current_locale: "en-US".to_owned() }
    }

    /// Switches to a supported locale; an unsupported one is ignored.
    pub fn set_locale(&mut self, locale: &str)
        ensures
            final(self).locale() == if is_supported_locale(locale@) {
                locale@
            } else {
                old(self).locale()
            },
    {
        if str_eq(locale, "en-US") || str_eq(locale, "zh-CN") {
            self.current_locale = locale.to_owned();
        }
    }

    /// The locale in force.
    pub fn get_current_locale(&self) -> (r: String)
        ensures
            r@ == self.locale(),
    {
        self.current_locale.clone()
    }

    /// Translates a key under the current locale, falling back to the key.
    pub fn t(&self, key: &str) -> (r: String)
        ensures
            r@ == translate_spec(self.locale(), key@),
    {
        let en = str_eq(self.current_locale.as_str(), "en-US");
        let zh = str_eq(self.current_locale.as_str(), "zh-CN");
        if en {
            if str_eq(key, "error-failed-to-create") {
                "Failed to create".to_owned()
            } else if str_eq(key, "error-failed-to-update") {
                "Failed to update".to_owned()
            } else if str_eq(key, "error-failed-to-delete") {
                "Failed to delete".to_owned()
            } else if str_eq(key, "agent-not-found") {
                "Agent not found".to_owned()
            } else if str_eq(key, "agent-not-installed") {
                "The coding agent is not installed".to_owned()
            } else if str_eq(key, "relay_adapter.custom_no_test") {
                "Custom configuration, connection test skipped".to_owned()
            } else if str_eq(key, "relay_adapter.user_info_not_available") {
                "User info not available for this configuration".to_owned()
            } else if str_eq(key, "relay_adapter.usage_logs_not_available") {
                "Usage logs not available for this configuration".to_owned()
            } else if str_eq(key, "relay_adapter.token_management_not_available") {
                "Token management not available for this configuration".to_owned()
            } else if str_eq(key, "relay_adapter.connection_success") {
                "Connection successful".to_owned()
            } else if str_eq(key, "relay_adapter.api_error") {
                "API returned error".to_owned()
            } else if str_eq(key, "relay_adapter.parse_error") {
                "Failed to parse response".to_owned()
            } else if str_eq(key, "relay_adapter.http_error") {
                "HTTP request failed".to_owned()
            } else if str_eq(key, "relay_adapter.network_error") {
                "Network connection failed".to_owned()
            } else if str_eq(key, "relay_station.enabled_success") {
                "Relay station enabled successfully".to_owned()
            } else if str_eq(key, "relay_station.disabled_success") {
                "Relay station disabled successfully".to_owned()
            } else {
                key.to_owned()
            }
        } else if zh {
            if str_eq(key, "error-failed-to-create") {
                "创建失败".to_owned()
            } else if str_eq(key, "error-failed-to-update") {
                "更新失败".to_owned()
            } else if str_eq(key, "error-failed-to-delete") {
                "删除失败".to_owned()
            } else if str_eq(key, "agent-not-found") {
                "未找到智能体".to_owned()
            } else if str_eq(key, "agent-not-installed") {
                "未安装编码智能体".to_owned()
            } else if str_eq(key, "relay_adapter.custom_no_test") {
                "自定义配置，跳过连接测试".to_owned()
            } else if str_eq(key, "relay_adapter.user_info_not_available") {
                "该配置不支持用户信息查询".to_owned()
            } else if str_eq(key, "relay_adapter.usage_logs_not_available") {
                "该配置不支持使用日志查询".to_owned()
            } else if str_eq(key, "relay_adapter.token_management_not_available") {
                "该配置不支持 Token 管理".to_owned()
            } else if str_eq(key, "relay_adapter.connection_success") {
                "连接成功".to_owned()
            } else if str_eq(key, "relay_adapter.api_error") {
                "API 返回错误".to_owned()
            } else if str_eq(key, "relay_adapter.parse_error") {
                "解析响应失败".to_owned()
            } else if str_eq(key, "relay_adapter.http_error") {
                "HTTP 请求失败".to_owned()
            } else if str_eq(key, "relay_adapter.network_error") {
                "网络连接失败".to_owned()
            } else if str_eq(key, "relay_station.enabled_success") {
                "中转站启用成功".to_owned()
            } else if str_eq(key, "relay_station.disabled_success") {
                "中转站禁用成功".to_owned()
            } else {
                key.to_owned()
            }
        } else {
            key.to_owned()
        }
    }
}

} // verus!
